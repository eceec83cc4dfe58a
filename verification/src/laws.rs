//! The laws the route compiler obeys, stated over the specification
//! functions that the executable functions are proved against.

use vstd::prelude::*;

use crate::compilation::{
    bind_queries, bind_segments, dynamic_count, format_path_segs_v, format_path_v,
    format_queries_v, format_query_piece, format_seg_piece, from_route_v, has_param, pool_find,
    pool_of, lemma_pool_find_props, CompiledRouteV, HandlerArgV, NamedParameterV,
};
use crate::parsing::{classify_all, has_misplaced_wildcard, parse_route_v, PathParamV,
    RouteErrorV, RouteParserV, RouteV};
use crate::strutil::{
    lemma_placeholder_count_brace_free, lemma_placeholder_count_concat, placeholder_count,
    split_on,
};

verus! {

/// The names a route demands from the pool: the capture and wildcard names
/// in path order, then the query names in declaration order.
pub open spec fn seg_names(segs: Seq<PathParamV>) -> Seq<Seq<char>>
    decreases segs.len(),
{
    if segs.len() == 0 {
        Seq::empty()
    } else {
        let rest = seg_names(segs.drop_first());
        match segs[0] {
            PathParamV::Capture { name, .. } => seq![name] + rest,
            PathParamV::WildCard { name, .. } => seq![name] + rest,
            PathParamV::Static { .. } => rest,
        }
    }
}

/// All names a route demands from the pool.
pub open spec fn required_names(route: RouteV) -> Seq<Seq<char>> {
    seg_names(route.path_params) + route.query_params
}

/// No name occurs twice.
pub open spec fn distinct_names(names: Seq<Seq<char>>) -> bool {
    forall|i: int, j: int| 0 <= i < j < names.len() ==> names[i] != names[j]
}

/// The whole pipeline on one route string: tokenize and classify, then bind
/// against the pool, with the explicit state type where one is given.
pub open spec fn compile_route_v(
    s: Seq<char>,
    explicit_state: Option<Seq<char>>,
    args: Seq<HandlerArgV>,
) -> Result<CompiledRouteV, RouteErrorV> {
    match parse_route_v(s) {
        Err(e) => Err(e),
        Ok(p) => from_route_v(
            RouteV {
                path_params: p.path_params,
                query_params: p.query_params,
                state: explicit_state,
                route_lit: s,
            },
            args,
        ),
    }
}

proof fn lemma_remove_preserves_has(pool: Seq<NamedParameterV>, j: int, n: Seq<char>)
    requires
        0 <= j < pool.len(),
        pool[j].name != n,
    ensures
        has_param(pool.remove(j), n) <==> has_param(pool, n),
{
    let r = pool.remove(j);
    assert(forall|t: int| 0 <= t < j ==> r[t] == pool[t]);
    assert(forall|t: int| j <= t < r.len() ==> r[t] == pool[t + 1]);
    if has_param(pool, n) {
        let k = choose|k: int| 0 <= k < pool.len() && pool[k].name == n;
        if k < j {
            assert(r[k].name == n);
        } else {
            assert(r[k - 1].name == n);
        }
    }
    if has_param(r, n) {
        let k = choose|k: int| 0 <= k < r.len() && r[k].name == n;
        if k < j {
            assert(pool[k].name == n);
        } else {
            assert(pool[k + 1].name == n);
        }
    }
}

/// Binding the path segments succeeds exactly when every capture and
/// wildcard name has a pool entry, provided no name repeats; and it removes
/// from the pool no name the segments do not demand.
pub proof fn lemma_bind_segments_characterization(
    segs: Seq<PathParamV>,
    pool: Seq<NamedParameterV>,
)
    requires
        distinct_names(seg_names(segs)),
    ensures
        (bind_segments(segs, pool) is Ok) <==> (forall|n: Seq<char>|
            seg_names(segs).contains(n) ==> has_param(pool, n)),
        (bind_segments(segs, pool) matches Ok(sp) ==> forall|n: Seq<char>|
            !seg_names(segs).contains(n) ==> (has_param(sp.1, n) <==> has_param(pool, n))),
    decreases segs.len(), 1int,
{
    let names = seg_names(segs);
    if segs.len() == 0 {
        assert(names =~= Seq::<Seq<char>>::empty());
    } else {
        let rest = segs.drop_first();
        let rest_names = seg_names(rest);
        match segs[0] {
            PathParamV::Static { .. } => {
                assert(names == rest_names);
                lemma_bind_segments_characterization(rest, pool);
                match bind_segments(rest, pool) {
                    Ok(sp) => {},
                    Err(e) => {},
                }
            },
            PathParamV::Capture { name, .. } => {
                lemma_bind_dynamic_step(segs, pool, name);
            },
            PathParamV::WildCard { name, .. } => {
                lemma_bind_dynamic_step(segs, pool, name);
            },
        }
    }
}

/// One binding step for a capture or wildcard head segment named `name`.
proof fn lemma_bind_dynamic_step(segs: Seq<PathParamV>, pool: Seq<NamedParameterV>, name: Seq<
    char,
>)
    requires
        segs.len() > 0,
        distinct_names(seg_names(segs)),
        match segs[0] {
            PathParamV::Capture { name: m, .. } => m == name,
            PathParamV::WildCard { name: m, .. } => m == name,
            PathParamV::Static { .. } => false,
        },
    ensures
        (bind_segments(segs, pool) is Ok) <==> (forall|n: Seq<char>|
            seg_names(segs).contains(n) ==> has_param(pool, n)),
        (bind_segments(segs, pool) matches Ok(sp) ==> forall|n: Seq<char>|
            !seg_names(segs).contains(n) ==> (has_param(sp.1, n) <==> has_param(pool, n))),
    decreases segs.len(), 0int,
{
    let names = seg_names(segs);
    let rest = segs.drop_first();
    let rest_names = seg_names(rest);
    assert(names == seq![name] + rest_names);
    assert(names[0] == name);
    assert(forall|t: int| 0 <= t < rest_names.len() ==> names[t + 1] == rest_names[t]);
    assert(names.contains(name));

    // A name no head segment demands: the decomposition of `contains`.
    assert forall|n: Seq<char>| names.contains(n) implies (n == name || rest_names.contains(
        n,
    )) by {
        let t = choose|t: int| 0 <= t < names.len() && names[t] == n;
        if t != 0 {
            assert(rest_names[t - 1] == n);
        }
    };
    assert forall|n: Seq<char>| rest_names.contains(n) implies names.contains(n) by {
        let t = choose|t: int| 0 <= t < rest_names.len() && rest_names[t] == n;
        assert(names[t + 1] == n);
    };

    // The tail names repeat nothing, and do not hold the head name.
    assert forall|i: int, j: int| 0 <= i < j < rest_names.len() implies rest_names[i]
        != rest_names[j] by {
        assert(names[i + 1] == rest_names[i]);
        assert(names[j + 1] == rest_names[j]);
    };
    assert(distinct_names(rest_names));
    assert(!rest_names.contains(name)) by {
        if rest_names.contains(name) {
            let t = choose|t: int| 0 <= t < rest_names.len() && rest_names[t] == name;
            assert(names[t + 1] == names[0]);
        }
    };

    lemma_pool_find_props(pool, name);
    let j = pool_find(pool, name);
    if j == -1 {
        assert(!has_param(pool, name)) by {
            if has_param(pool, name) {
                let k = choose|k: int| 0 <= k < pool.len() && pool[k].name == name;
            }
        };
        assert(bind_segments(segs, pool) is Err);
    } else {
        assert(pool[j].name == name);
        assert(has_param(pool, name));
        assert forall|n2: Seq<char>| n2 != name implies (has_param(pool.remove(j), n2)
            <==> has_param(pool, n2)) by {
            lemma_remove_preserves_has(pool, j, n2);
        };
        lemma_bind_segments_characterization(rest, pool.remove(j));
        match bind_segments(rest, pool.remove(j)) {
            Ok(sp) => {
                assert(bind_segments(segs, pool) is Ok);
                assert forall|n: Seq<char>| !names.contains(n) implies (has_param(sp.1, n)
                    <==> has_param(pool, n)) by {
                    assert(!rest_names.contains(n));
                    assert(n != name);
                };
            },
            Err(e) => {
                assert(bind_segments(segs, pool) is Err);
                assert(!(forall|n: Seq<char>|
                    rest_names.contains(n) ==> has_param(pool.remove(j), n)));
                let m = choose|m: Seq<char>|
                    rest_names.contains(m) && !has_param(pool.remove(j), m);
                assert(m != name);
                assert(!has_param(pool, m));
                assert(names.contains(m));
            },
        }
    }
}

/// Binding the query names succeeds exactly when every query name has a
/// pool entry, provided no name repeats; and it removes from the pool no
/// name the queries do not demand.
pub proof fn lemma_bind_queries_characterization(qs: Seq<Seq<char>>, pool: Seq<NamedParameterV>)
    requires
        distinct_names(qs),
    ensures
        (bind_queries(qs, pool) is Ok) <==> (forall|n: Seq<char>|
            qs.contains(n) ==> has_param(pool, n)),
        (bind_queries(qs, pool) matches Ok(qp) ==> forall|n: Seq<char>|
            !qs.contains(n) ==> (has_param(qp.1, n) <==> has_param(pool, n))),
    decreases qs.len(),
{
    if qs.len() == 0 {
    } else {
        let name = qs[0];
        let rest = qs.drop_first();
        assert(forall|t: int| 0 <= t < rest.len() ==> qs[t + 1] == rest[t]);
        assert(qs.contains(name));
        assert forall|n: Seq<char>| qs.contains(n) implies (n == name || rest.contains(n)) by {
            let t = choose|t: int| 0 <= t < qs.len() && qs[t] == n;
            if t != 0 {
                assert(rest[t - 1] == n);
            }
        };
        assert forall|n: Seq<char>| rest.contains(n) implies qs.contains(n) by {
            let t = choose|t: int| 0 <= t < rest.len() && rest[t] == n;
            assert(qs[t + 1] == n);
        };
        assert forall|i: int, j: int| 0 <= i < j < rest.len() implies rest[i] != rest[j] by {
            assert(qs[i + 1] == rest[i]);
            assert(qs[j + 1] == rest[j]);
        };
        assert(distinct_names(rest));
        assert(!rest.contains(name)) by {
            if rest.contains(name) {
                let t = choose|t: int| 0 <= t < rest.len() && rest[t] == name;
                assert(qs[t + 1] == qs[0]);
            }
        };

        lemma_pool_find_props(pool, name);
        let j = pool_find(pool, name);
        if j == -1 {
            assert(!has_param(pool, name)) by {
                if has_param(pool, name) {
                    let k = choose|k: int| 0 <= k < pool.len() && pool[k].name == name;
                }
            };
            assert(bind_queries(qs, pool) is Err);
        } else {
            assert(pool[j].name == name);
            assert(has_param(pool, name));
            assert forall|n2: Seq<char>| n2 != name implies (has_param(pool.remove(j), n2)
                <==> has_param(pool, n2)) by {
                lemma_remove_preserves_has(pool, j, n2);
            };
            lemma_bind_queries_characterization(rest, pool.remove(j));
            match bind_queries(rest, pool.remove(j)) {
                Ok(qp) => {
                    assert(bind_queries(qs, pool) is Ok);
                    assert forall|n: Seq<char>| !qs.contains(n) implies (has_param(qp.1, n)
                        <==> has_param(pool, n)) by {
                        assert(!rest.contains(n));
                        assert(n != name);
                    };
                },
                Err(e) => {
                    assert(bind_queries(qs, pool) is Err);
                    assert(!(forall|n: Seq<char>|
                        rest.contains(n) ==> has_param(pool.remove(j), n)));
                    let m = choose|m: Seq<char>|
                        rest.contains(m) && !has_param(pool.remove(j), m);
                    assert(m != name);
                    assert(!has_param(pool, m));
                    assert(qs.contains(m));
                },
            }
        }
    }
}

/// Compilation of a parsed route succeeds exactly when every capture,
/// wildcard and query name has a same-named entry in the pool, provided the
/// route demands no name twice.  A route that does demand a name twice can
/// fail although the name is in the pool: the first binding consumes it.
pub proof fn lemma_compiles_iff_names_available(route: RouteV, args: Seq<HandlerArgV>)
    requires
        distinct_names(required_names(route)),
    ensures
        (from_route_v(route, args) is Ok) <==> (forall|n: Seq<char>|
            required_names(route).contains(n) ==> has_param(pool_of(args), n)),
{
    let pool = pool_of(args);
    let sn = seg_names(route.path_params);
    let qn = route.query_params;
    let all = required_names(route);
    assert(all == sn + qn);
    assert(forall|t: int| 0 <= t < sn.len() ==> all[t] == sn[t]);
    assert(forall|t: int| 0 <= t < qn.len() ==> all[sn.len() + t] == qn[t]);

    assert forall|n: Seq<char>| all.contains(n) implies (sn.contains(n) || qn.contains(n)) by {
        let t = choose|t: int| 0 <= t < all.len() && all[t] == n;
        if t < sn.len() {
            assert(sn[t] == n);
        } else {
            assert(qn[t - sn.len()] == n);
        }
    };
    assert forall|n: Seq<char>| sn.contains(n) || qn.contains(n) implies all.contains(n) by {
        if sn.contains(n) {
            let t = choose|t: int| 0 <= t < sn.len() && sn[t] == n;
            assert(all[t] == n);
        } else {
            let t = choose|t: int| 0 <= t < qn.len() && qn[t] == n;
            assert(all[sn.len() + t] == n);
        }
    };
    assert forall|i: int, j: int| 0 <= i < j < sn.len() implies sn[i] != sn[j] by {
        assert(all[i] == sn[i]);
        assert(all[j] == sn[j]);
    };
    assert(distinct_names(sn));
    assert forall|i: int, j: int| 0 <= i < j < qn.len() implies qn[i] != qn[j] by {
        assert(all[sn.len() + i] == qn[i]);
        assert(all[sn.len() + j] == qn[j]);
    };
    assert(distinct_names(qn));
    assert forall|n: Seq<char>| qn.contains(n) implies !sn.contains(n) by {
        if sn.contains(n) && qn.contains(n) {
            let t1 = choose|t: int| 0 <= t < sn.len() && sn[t] == n;
            let t2 = choose|t: int| 0 <= t < qn.len() && qn[t] == n;
            assert(all[t1] == all[sn.len() + t2]);
        }
    };

    lemma_bind_segments_characterization(route.path_params, pool);
    match bind_segments(route.path_params, pool) {
        Err(e) => {
            let m = choose|m: Seq<char>| sn.contains(m) && !has_param(pool, m);
            assert(all.contains(m));
        },
        Ok(sp) => {
            lemma_bind_queries_characterization(qn, sp.1);
            assert forall|n: Seq<char>| qn.contains(n) implies (has_param(sp.1, n) <==> has_param(
                pool,
                n,
            )) by {
                assert(!sn.contains(n));
            };
            match bind_queries(qn, sp.1) {
                Err(e) => {
                    let m = choose|m: Seq<char>| qn.contains(m) && !has_param(sp.1, m);
                    assert(!has_param(pool, m));
                    assert(all.contains(m));
                },
                Ok(qp) => {},
            }
        },
    }
}

/// The whole pipeline succeeds exactly when the route tokenizes, places any
/// wildcard last, and every demanded name has a pool entry.
pub proof fn lemma_pipeline_compiles_iff_names_available(
    s: Seq<char>,
    explicit_state: Option<Seq<char>>,
    args: Seq<HandlerArgV>,
)
    requires
        parse_route_v(s) matches Ok(p) && distinct_names(
            required_names(
                RouteV {
                    path_params: p.path_params,
                    query_params: p.query_params,
                    state: explicit_state,
                    route_lit: s,
                },
            ),
        ),
    ensures
        parse_route_v(s) matches Ok(p) ==> ((compile_route_v(s, explicit_state, args) is Ok) <==> (
        forall|n: Seq<char>|
            required_names(
                RouteV {
                    path_params: p.path_params,
                    query_params: p.query_params,
                    state: explicit_state,
                    route_lit: s,
                },
            ).contains(n) ==> has_param(pool_of(args), n))),
{
    match parse_route_v(s) {
        Ok(p) => {
            let route = RouteV {
                path_params: p.path_params,
                query_params: p.query_params,
                state: explicit_state,
                route_lit: s,
            };
            lemma_compiles_iff_names_available(route, args);
        },
        Err(_) => {},
    }
}

/// A route whose tokenization succeeds but whose classified segments hold a
/// non-final wildcard fails with `InvalidWildcardPosition`, whatever the
/// pool and the explicit state type.
pub proof fn lemma_misplaced_wildcard_always_fails(
    s: Seq<char>,
    explicit_state: Option<Seq<char>>,
    args: Seq<HandlerArgV>,
)
    requires
        split_on(s, '?').len() <= 2,
        split_on(s, '?')[0].len() > 0,
        split_on(s, '?')[0][0] == '/',
        has_misplaced_wildcard(classify_all(split_on(split_on(s, '?')[0].drop_first(), '/'))),
    ensures
        compile_route_v(s, explicit_state, args) == Err::<CompiledRouteV, RouteErrorV>(
            RouteErrorV::InvalidWildcardPosition,
        ),
{
    assert(parse_route_v(s) == Err::<RouteParserV, RouteErrorV>(
        RouteErrorV::InvalidWildcardPosition,
    ));
}

/// A sequence of brace-free characters.
pub open spec fn brace_free(s: Seq<char>) -> bool {
    forall|j: int| 0 <= j < s.len() ==> s[j] != '{' && s[j] != '}'
}

/// Whether a segment's own text is brace-free; captures and wildcards emit
/// no text of their own into the display-format string.
pub open spec fn seg_brace_free(p: PathParamV) -> bool {
    match p {
        PathParamV::Static { text } => brace_free(text),
        _ => true,
    }
}

proof fn lemma_pc_pair()
    ensures
        placeholder_count(seq!['{', '}']) == 1,
{
    let s = seq!['{', '}'];
    assert(s.drop_first() =~= seq!['}']);
    assert(placeholder_count(seq!['}']) == 0);
    assert(placeholder_count(s) == 1 + placeholder_count(seq!['}']));
}

proof fn lemma_pc_format_seg_piece(p: PathParamV)
    requires
        seg_brace_free(p),
    ensures
        placeholder_count(format_seg_piece(p)) == (if p is Static {
            0nat
        } else {
            1nat
        }),
        format_seg_piece(p).len() > 0,
        format_seg_piece(p)[0] == '/',
        format_seg_piece(p).last() != '{',
{
    match p {
        PathParamV::Static { text } => {
            let piece = format_seg_piece(p);
            assert(piece == seq!['/'] + text);
            assert(forall|j: int| 0 <= j < piece.len() ==> piece[j] != '{');
            lemma_placeholder_count_brace_free(piece);
        },
        _ => {
            let piece = format_seg_piece(p);
            assert(piece == seq!['/', '{', '}']);
            assert(piece.drop_first() =~= seq!['{', '}']);
            lemma_pc_pair();
            assert(placeholder_count(piece) == placeholder_count(seq!['{', '}']));
        },
    }
}

proof fn lemma_pc_path_segs(segs: Seq<PathParamV>)
    requires
        forall|i: int| 0 <= i < segs.len() ==> seg_brace_free(#[trigger] segs[i]),
    ensures
        placeholder_count(format_path_segs_v(segs)) == dynamic_count(segs),
        segs.len() > 0 ==> format_path_segs_v(segs).len() > 0 && format_path_segs_v(segs)[0]
            == '/',
    decreases segs.len(),
{
    if segs.len() > 0 {
        let piece = format_seg_piece(segs[0]);
        let rest = format_path_segs_v(segs.drop_first());
        assert(forall|i: int|
            0 <= i < segs.drop_first().len() ==> seg_brace_free(#[trigger] segs.drop_first()[i]));
        lemma_pc_path_segs(segs.drop_first());
        lemma_pc_format_seg_piece(segs[0]);
        lemma_placeholder_count_concat(piece, rest);
        assert((piece + rest)[0] == piece[0]);
    }
}

proof fn lemma_pc_query_piece(first: bool, name: Seq<char>)
    requires
        brace_free(name),
    ensures
        placeholder_count(format_query_piece(first, name)) == 1,
        format_query_piece(first, name).len() > 0,
        format_query_piece(first, name)[0] != '}',
{
    let sep = if first {
        seq!['?']
    } else {
        seq!['&']
    };
    let head = sep + name;
    let tail = seq!['=', '{', '}'];
    assert(format_query_piece(first, name) == head + tail);
    assert(forall|j: int| 0 <= j < head.len() ==> head[j] != '{');
    lemma_placeholder_count_brace_free(head);
    assert(tail.drop_first() =~= seq!['{', '}']);
    lemma_pc_pair();
    assert(placeholder_count(tail) == placeholder_count(seq!['{', '}']));
    lemma_placeholder_count_concat(head, tail);
    assert((head + tail)[0] == sep[0]);
}

proof fn lemma_pc_queries(qs: Seq<NamedParameterV>, first: bool)
    requires
        forall|i: int| 0 <= i < qs.len() ==> brace_free(#[trigger] qs[i].name),
    ensures
        placeholder_count(format_queries_v(qs, first)) == qs.len(),
        qs.len() > 0 ==> format_queries_v(qs, first).len() > 0 && format_queries_v(qs, first)[0]
            != '}',
    decreases qs.len(),
{
    if qs.len() > 0 {
        let piece = format_query_piece(first, qs[0].name);
        let rest = format_queries_v(qs.drop_first(), false);
        assert(forall|i: int|
            0 <= i < qs.drop_first().len() ==> brace_free(#[trigger] qs.drop_first()[i].name));
        lemma_pc_queries(qs.drop_first(), false);
        lemma_pc_query_piece(first, qs[0].name);
        lemma_placeholder_count_concat(piece, rest);
        assert((piece + rest)[0] == piece[0]);
    }
}

/// The display-format string holds exactly one positional placeholder for
/// each capture and wildcard, plus one for each query parameter where those
/// are included — provided no static text and no query name holds a brace
/// of its own.
pub proof fn lemma_format_path_placeholder_count(c: CompiledRouteV, include_query_params: bool)
    requires
        forall|i: int| 0 <= i < c.path_params.len() ==> seg_brace_free(#[trigger] c.path_params[i]),
        forall|i: int| 0 <= i < c.query_params.len() ==> brace_free(#[trigger] c.query_params[i].name),
    ensures
        placeholder_count(format_path_v(c, include_query_params)) == dynamic_count(c.path_params)
            + (if include_query_params {
            c.query_params.len()
        } else {
            0nat
        }),
{
    let segs_part = format_path_segs_v(c.path_params);
    lemma_pc_path_segs(c.path_params);
    if include_query_params {
        let query_part = format_queries_v(c.query_params, true);
        lemma_pc_queries(c.query_params, true);
        lemma_placeholder_count_concat(segs_part, query_part);
    } else {
        lemma_placeholder_count_concat(segs_part, Seq::<char>::empty());
        assert(segs_part + Seq::<char>::empty() =~= segs_part);
    }
}

} // verus!
