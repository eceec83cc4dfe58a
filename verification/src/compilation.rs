//! Binding the classified segments and query names of a route against the
//! pool of typed handler parameters, resolving the state type, and
//! generating the derived strings and identifier lists.

use vstd::prelude::*;
use vstd::string::*;

use crate::param_type::{ParamType, ParamTypeV};
use crate::parsing::{PathParam, PathParamV, Route, RouteError, RouteErrorV, RouteV};

verus! {

/// A named, typed entry: an available handler parameter, or a bound query
/// parameter.
#[derive(Debug, PartialEq, Eq)]
pub struct NamedParameter {
    pub name: String,
    pub ty: ParamType,
}

/// Mathematical model of [`NamedParameter`].
pub struct NamedParameterV {
    pub name: Seq<char>,
    pub ty: ParamTypeV,
}

impl View for NamedParameter {
    type V = NamedParameterV;

    open spec fn view(&self) -> NamedParameterV {
        NamedParameterV { name: self.name@, ty: self.ty@ }
    }
}

/// One declared handler argument: its identifier, where the argument is
/// bound to a plain identifier pattern, and its type.
#[derive(Clone, Debug, PartialEq, Eq)]
pub struct HandlerArg {
    pub name: Option<String>,
    pub ty: ParamType,
}

/// Mathematical model of [`HandlerArg`].
pub struct HandlerArgV {
    pub name: Option<Seq<char>>,
    pub ty: ParamTypeV,
}

impl View for HandlerArg {
    type V = HandlerArgV;

    open spec fn view(&self) -> HandlerArgV {
        HandlerArgV {
            name: match &self.name {
                Some(n) => Some(n@),
                None => None,
            },
            ty: self.ty@,
        }
    }
}

/// A pass-through handler argument, renumbered positionally: the position it
/// holds in the handler's argument list, and its type.
#[derive(Debug, PartialEq, Eq)]
pub struct NumberedParameter {
    pub index: usize,
    pub ty: ParamType,
}

/// Mathematical model of [`NumberedParameter`].
pub struct NumberedParameterV {
    pub index: int,
    pub ty: ParamTypeV,
}

impl View for NumberedParameter {
    type V = NumberedParameterV;

    open spec fn view(&self) -> NumberedParameterV {
        NumberedParameterV { index: self.index as int, ty: self.ty@ }
    }
}

/// The views of a sequence of handler arguments.
pub open spec fn args_view(args: Seq<HandlerArg>) -> Seq<HandlerArgV> {
    args.map_values(|a: HandlerArg| a@)
}

/// The views of a sequence of named parameters.
pub open spec fn pool_view(pool: Seq<NamedParameter>) -> Seq<NamedParameterV> {
    pool.map_values(|p: NamedParameter| p@)
}

/// The views of a sequence of path segments.
pub open spec fn segs_view(segs: Seq<PathParam>) -> Seq<PathParamV> {
    segs.map_values(|p: PathParam| p@)
}

/// The available-parameter pool of an argument list: the named arguments,
/// in declaration order.
pub open spec fn pool_of(args: Seq<HandlerArgV>) -> Seq<NamedParameterV>
    decreases args.len(),
{
    if args.len() == 0 {
        Seq::empty()
    } else {
        let rest = pool_of(args.drop_first());
        match args[0].name {
            Some(n) => seq![NamedParameterV { name: n, ty: args[0].ty }] + rest,
            None => rest,
        }
    }
}

proof fn lemma_pool_of_push(args: Seq<HandlerArgV>, x: HandlerArgV)
    ensures
        pool_of(args.push(x)) == pool_of(args) + (match x.name {
            Some(n) => seq![NamedParameterV { name: n, ty: x.ty }],
            None => Seq::<NamedParameterV>::empty(),
        }),
    decreases args.len(),
{
    if args.len() == 0 {
        assert(args.push(x)[0] == x);
        assert(args.push(x).drop_first() =~= Seq::<HandlerArgV>::empty());
        assert(pool_of(args.push(x).drop_first()) =~= Seq::<NamedParameterV>::empty());
        assert(pool_of(args) =~= Seq::<NamedParameterV>::empty());
        match x.name {
            Some(n) => {
                assert(pool_of(args.push(x)) =~= pool_of(args) + seq![
                    NamedParameterV { name: n, ty: x.ty },
                ]);
            },
            None => {
                assert(pool_of(args.push(x)) =~= pool_of(args));
                assert(pool_of(args) + Seq::<NamedParameterV>::empty() =~= pool_of(args));
            },
        }
    } else {
        lemma_pool_of_push(args.drop_first(), x);
        assert(args.push(x).drop_first() =~= args.drop_first().push(x));
        assert(args.push(x)[0] == args[0]);
        let tail = match x.name {
            Some(n) => seq![NamedParameterV { name: n, ty: x.ty }],
            None => Seq::<NamedParameterV>::empty(),
        };
        match args[0].name {
            Some(m) => {
                assert(seq![NamedParameterV { name: m, ty: args[0].ty }] + (pool_of(
                    args.drop_first(),
                ) + tail) =~= (seq![NamedParameterV { name: m, ty: args[0].ty }] + pool_of(
                    args.drop_first(),
                )) + tail);
            },
            None => {},
        }
    }
}

/// The index of the first pool entry with the given name, or `-1`.
pub open spec fn pool_find(pool: Seq<NamedParameterV>, name: Seq<char>) -> int
    decreases pool.len(),
{
    if pool.len() == 0 {
        -1
    } else if pool[0].name == name {
        0
    } else {
        let r = pool_find(pool.drop_first(), name);
        if r == -1 {
            -1
        } else {
            r + 1
        }
    }
}

/// Whether some pool entry has the given name.
pub open spec fn has_param(pool: Seq<NamedParameterV>, name: Seq<char>) -> bool {
    exists|k: int| 0 <= k < pool.len() && pool[k].name == name
}

/// The number of captures and wildcards among the segments.
pub open spec fn dynamic_count(segs: Seq<PathParamV>) -> nat
    decreases segs.len(),
{
    if segs.len() == 0 {
        0
    } else {
        (if crate::parsing::spec_captures(segs[0]) {
            1nat
        } else {
            0nat
        }) + dynamic_count(segs.drop_first())
    }
}

pub proof fn lemma_pool_find_props(pool: Seq<NamedParameterV>, name: Seq<char>)
    ensures
        pool_find(pool, name) == -1 ==> forall|k: int| 0 <= k < pool.len() ==> pool[k].name != name,
        pool_find(pool, name) != -1 ==> {
            let r = pool_find(pool, name);
            &&& 0 <= r < pool.len()
            &&& pool[r].name == name
            &&& forall|k: int| 0 <= k < r ==> pool[k].name != name
        },
    decreases pool.len(),
{
    if pool.len() != 0 && pool[0].name != name {
        lemma_pool_find_props(pool.drop_first(), name);
        assert(forall|k: int| 1 <= k < pool.len() ==> pool[k] == pool.drop_first()[k - 1]);
    }
}

pub proof fn lemma_pool_find_at(pool: Seq<NamedParameterV>, name: Seq<char>, j: int)
    requires
        0 <= j < pool.len(),
        pool[j].name == name,
        forall|k: int| 0 <= k < j ==> pool[k].name != name,
    ensures
        pool_find(pool, name) == j,
{
    lemma_pool_find_props(pool, name);
}

/// Binding the path segments, in order: each capture or wildcard consumes
/// the first pool entry of its name, or fails as an unbound path parameter.
/// Returns the bound segments and the remaining pool.
pub open spec fn bind_segments(segs: Seq<PathParamV>, pool: Seq<NamedParameterV>) -> Result<
    (Seq<PathParamV>, Seq<NamedParameterV>),
    RouteErrorV,
>
    decreases segs.len(),
{
    if segs.len() == 0 {
        Ok((Seq::empty(), pool))
    } else {
        match segs[0] {
            PathParamV::Static { text } => match bind_segments(segs.drop_first(), pool) {
                Ok(sp) => Ok((seq![PathParamV::Static { text }] + sp.0, sp.1)),
                Err(e) => Err(e),
            },
            PathParamV::Capture { name, ident, ty } => {
                let j = pool_find(pool, name);
                if j == -1 {
                    Err(RouteErrorV::UnboundPathParameter { name })
                } else {
                    let bound = PathParamV::Capture {
                        name,
                        ident: pool[j].name,
                        ty: pool[j].ty,
                    };
                    match bind_segments(segs.drop_first(), pool.remove(j)) {
                        Ok(sp) => Ok((seq![bound] + sp.0, sp.1)),
                        Err(e) => Err(e),
                    }
                }
            },
            PathParamV::WildCard { name, ident, ty } => {
                let j = pool_find(pool, name);
                if j == -1 {
                    Err(RouteErrorV::UnboundPathParameter { name })
                } else {
                    let bound = PathParamV::WildCard {
                        name,
                        ident: pool[j].name,
                        ty: pool[j].ty,
                    };
                    match bind_segments(segs.drop_first(), pool.remove(j)) {
                        Ok(sp) => Ok((seq![bound] + sp.0, sp.1)),
                        Err(e) => Err(e),
                    }
                }
            },
        }
    }
}

/// Binding the query names, in declaration order: each consumes the first
/// pool entry of its name, or fails as an unbound query parameter.  Returns
/// the bound query parameters and the remaining pool.
pub open spec fn bind_queries(qs: Seq<Seq<char>>, pool: Seq<NamedParameterV>) -> Result<
    (Seq<NamedParameterV>, Seq<NamedParameterV>),
    RouteErrorV,
>
    decreases qs.len(),
{
    if qs.len() == 0 {
        Ok((Seq::empty(), pool))
    } else {
        let j = pool_find(pool, qs[0]);
        if j == -1 {
            Err(RouteErrorV::UnboundQueryParameter { name: qs[0] })
        } else {
            let bound = NamedParameterV { name: pool[j].name, ty: pool[j].ty };
            match bind_queries(qs.drop_first(), pool.remove(j)) {
                Ok(qp) => Ok((seq![bound] + qp.0, qp.1)),
                Err(e) => Err(e),
            }
        }
    }
}

/// State-type inference: the sole type argument of the first pool entry
/// whose type is literally `State` of one type argument, or `()`.
pub open spec fn guess_state_v(pool: Seq<NamedParameterV>) -> Seq<char>
    decreases pool.len(),
{
    if pool.len() == 0 {
        seq!['(', ')']
    } else {
        match ParamType::spec_state_argument(pool[0].ty) {
            Some(t) => t,
            None => guess_state_v(pool.drop_first()),
        }
    }
}

proof fn lemma_guess_state_skip(pool: Seq<NamedParameterV>, i: int)
    requires
        0 <= i <= pool.len(),
        forall|k: int| 0 <= k < i ==> ParamType::spec_state_argument(pool[k].ty) is None,
    ensures
        guess_state_v(pool) == guess_state_v(pool.skip(i)),
    decreases i,
{
    if i > 0 {
        lemma_guess_state_skip(pool.drop_first(), i - 1);
        assert(pool.drop_first().skip(i - 1) =~= pool.skip(i));
        assert(forall|k: int|
            0 <= k < i - 1 ==> ParamType::spec_state_argument(pool.drop_first()[k].ty) is None);
    } else {
        assert(pool.skip(0) =~= pool);
    }
}

/// The resolved state type: the explicit one where the caller supplied it,
/// else the inferred one.
pub open spec fn resolved_state_v(explicit: Option<Seq<char>>, pool: Seq<NamedParameterV>) -> Seq<
    char,
> {
    match explicit {
        Some(s) => s,
        None => guess_state_v(pool),
    }
}

/// Guesses the state type from the available-parameter pool.
#[verifier::loop_isolation(false)]
fn guess_state_type(pool: &Vec<NamedParameter>) -> (r: String)
    ensures
        r@ == guess_state_v(pool_view(pool@)),
{
    let ghost pool_v = pool_view(pool@);
    let mut i: usize = 0;
    while i < pool.len()
        invariant
            i <= pool.len(),
            forall|k: int| 0 <= k < i ==> ParamType::spec_state_argument(pool_v[k].ty) is None,
        decreases pool.len() - i,
    {
        match pool[i].ty.state_argument() {
            Some(t) => {
                proof {
                    lemma_guess_state_skip(pool_v, i as int);
                    assert(pool_v.skip(i as int)[0] == pool_v[i as int]);
                }
                return t;
            },
            None => {
                proof {
                    assert(pool_v[i as int].ty == pool@[i as int]@.ty);
                }
            },
        }
        i += 1;
    }
    proof {
        lemma_guess_state_skip(pool_v, pool_v.len() as int);
        assert(pool_v.skip(pool_v.len() as int) =~= Seq::<NamedParameterV>::empty());
    }
    let r = String::from_str("()");
    proof {
        reveal_strlit("()");
        assert(r@ =~= seq!['(', ')']);
    }
    r
}

/// The index of the first pool entry with the given name, if any.
#[verifier::loop_isolation(false)]
fn find_pool(pool: &Vec<NamedParameter>, name: &String) -> (r: Option<usize>)
    ensures
        match r {
            Some(j) => j < pool@.len() && pool_find(pool_view(pool@), name@) == j,
            None => pool_find(pool_view(pool@), name@) == -1,
        },
{
    let ghost pool_v = pool_view(pool@);
    let mut j: usize = 0;
    while j < pool.len()
        invariant
            j <= pool.len(),
            forall|k: int| 0 <= k < j ==> pool_v[k].name != name@,
        decreases pool.len() - j,
    {
        if pool[j].name == *name {
            proof {
                lemma_pool_find_at(pool_v, name@, j as int);
            }
            return Some(j);
        }
        proof {
            assert(pool_v[j as int].name == pool@[j as int]@.name);
        }
        j += 1;
    }
    proof {
        lemma_pool_find_props(pool_v, name@);
    }
    None
}

/// The resolved aggregate of one compiled route: the bound path segments,
/// the bound query parameters, the resolved state type, and the original
/// pattern text.
#[derive(Debug, PartialEq, Eq)]
pub struct CompiledRoute {
    pub path_params: Vec<PathParam>,
    pub query_params: Vec<NamedParameter>,
    pub state: String,
    pub route_lit: String,
}

/// Mathematical model of [`CompiledRoute`].
pub struct CompiledRouteV {
    pub path_params: Seq<PathParamV>,
    pub query_params: Seq<NamedParameterV>,
    pub state: Seq<char>,
    pub route_lit: Seq<char>,
}

impl View for CompiledRoute {
    type V = CompiledRouteV;

    open spec fn view(&self) -> CompiledRouteV {
        CompiledRouteV {
            path_params: segs_view(self.path_params@),
            query_params: pool_view(self.query_params@),
            state: self.state@,
            route_lit: self.route_lit@,
        }
    }
}

/// Compiling a parsed route against an argument list: bind the path
/// segments, then the query names, against the pool of named arguments,
/// and resolve the state type from the pre-binding pool.
pub open spec fn from_route_v(route: RouteV, args: Seq<HandlerArgV>) -> Result<
    CompiledRouteV,
    RouteErrorV,
> {
    let pool = pool_of(args);
    match bind_segments(route.path_params, pool) {
        Err(e) => Err(e),
        Ok(sp) => match bind_queries(route.query_params, sp.1) {
            Err(e) => Err(e),
            Ok(qp) => Ok(
                CompiledRouteV {
                    path_params: sp.0,
                    query_params: qp.0,
                    state: resolved_state_v(route.state, pool),
                    route_lit: route.route_lit,
                },
            ),
        },
    }
}

impl CompiledRoute {
    /// Binds the captures, wildcards and query names of `route` against the
    /// named arguments of `args`, consuming matched entries, and resolves
    /// the state type.
    #[verifier::loop_isolation(false)]
    pub fn from_route(route: Route, args: &Vec<HandlerArg>) -> (r: Result<
        CompiledRoute,
        RouteError,
    >)
        ensures
            match r {
                Ok(c) => from_route_v(route@, args_view(args@)) == Ok::<
                    CompiledRouteV,
                    RouteErrorV,
                >(c@),
                Err(e) => from_route_v(route@, args_view(args@)) == Err::<
                    CompiledRouteV,
                    RouteErrorV,
                >(e@),
            },
    {
        let ghost route_v = route@;
        let ghost args_v = args_view(args@);
        let Route { path_params, query_params, state, route_lit } = route;

        // The pool: the named arguments, in declaration order.
        let mut pool: Vec<NamedParameter> = Vec::new();
        let mut i: usize = 0;
        proof {
            assert(args_v.take(0) =~= Seq::<HandlerArgV>::empty());
            assert(pool_view(pool@) =~= pool_of(args_v.take(0)));
        }
        while i < args.len()
            invariant
                i <= args.len(),
                pool_view(pool@) == pool_of(args_v.take(i as int)),
            decreases args.len() - i,
        {
            let ghost pre = pool_view(pool@);
            proof {
                lemma_pool_of_push(args_v.take(i as int), args_v[i as int]);
                assert(args_v.take(i as int).push(args_v[i as int]) =~= args_v.take(i + 1));
                assert(args_v[i as int] == args@[i as int]@);
            }
            match &args[i].name {
                Some(n) => {
                    let entry = NamedParameter { name: n.clone(), ty: args[i].ty.clone() };
                    pool.push(entry);
                    proof {
                        assert(pool_view(pool@) =~= pre + seq![
                            NamedParameterV { name: n@, ty: args@[i as int]@.ty },
                        ]);
                    }
                },
                None => {
                    proof {
                        assert(pre + Seq::<NamedParameterV>::empty() =~= pre);
                    }
                },
            }
            i += 1;
        }
        proof {
            assert(args_v.take(args_v.len() as int) =~= args_v);
        }
        let ghost pool0 = pool_view(pool@);

        // The state type, resolved against the pre-binding pool.
        let state: String = match state {
            Some(s) => s,
            None => guess_state_type(&pool),
        };

        // Bind the path segments, consuming the pool.
        let mut segs = path_params;
        let mut bound: Vec<PathParam> = Vec::new();
        proof {
            assert(segs_view(bound@) =~= Seq::<PathParamV>::empty());
            assert(segs_view(segs@) == route_v.path_params);
        }
        while segs.len() > 0
            invariant
                bind_segments(route_v.path_params, pool0) == (match bind_segments(
                    segs_view(segs@),
                    pool_view(pool@),
                ) {
                    Ok(sp) => Ok::<(Seq<PathParamV>, Seq<NamedParameterV>), RouteErrorV>(
                        (segs_view(bound@) + sp.0, sp.1),
                    ),
                    Err(e) => Err::<(Seq<PathParamV>, Seq<NamedParameterV>), RouteErrorV>(e),
                }),
            decreases segs.len(),
        {
            let ghost segs_pre = segs_view(segs@);
            let ghost pool_pre = pool_view(pool@);
            let ghost bound_pre = segs_view(bound@);
            let seg = segs.remove(0);
            proof {
                assert(seg@ == segs_pre[0]);
                assert(segs_view(segs@) =~= segs_pre.drop_first());
            }
            match seg {
                PathParam::Static { text } => {
                    bound.push(PathParam::Static { text });
                    proof {
                        assert(segs_view(bound@) =~= bound_pre.push(
                            PathParamV::Static { text: text@ },
                        ));
                        match bind_segments(segs_pre.drop_first(), pool_pre) {
                            Ok(sp) => {
                                assert(bound_pre + (seq![PathParamV::Static { text: text@ }]
                                    + sp.0) =~= segs_view(bound@) + sp.0);
                            },
                            Err(_) => {},
                        }
                    }
                },
                PathParam::Capture { name, ident, ty } => {
                    match find_pool(&pool, &name) {
                        Some(j) => {
                            let entry = pool.remove(j);
                            proof {
                                assert(entry@ == pool_pre[j as int]);
                                assert(pool_view(pool@) =~= pool_pre.remove(j as int));
                            }
                            let bound_seg = PathParam::Capture {
                                name,
                                ident: entry.name,
                                ty: entry.ty,
                            };
                            let ghost bound_seg_v = bound_seg@;
                            bound.push(bound_seg);
                            proof {
                                assert(segs_view(bound@) =~= bound_pre.push(bound_seg_v));
                                match bind_segments(segs_pre.drop_first(), pool_pre.remove(
                                    j as int,
                                )) {
                                    Ok(sp) => {
                                        assert(bound_pre + (seq![bound_seg_v] + sp.0)
                                            =~= segs_view(bound@) + sp.0);
                                    },
                                    Err(_) => {},
                                }
                            }
                        },
                        None => {
                            return Err(RouteError::UnboundPathParameter { name });
                        },
                    }
                },
                PathParam::WildCard { name, ident, ty } => {
                    match find_pool(&pool, &name) {
                        Some(j) => {
                            let entry = pool.remove(j);
                            proof {
                                assert(entry@ == pool_pre[j as int]);
                                assert(pool_view(pool@) =~= pool_pre.remove(j as int));
                            }
                            let bound_seg = PathParam::WildCard {
                                name,
                                ident: entry.name,
                                ty: entry.ty,
                            };
                            let ghost bound_seg_v = bound_seg@;
                            bound.push(bound_seg);
                            proof {
                                assert(segs_view(bound@) =~= bound_pre.push(bound_seg_v));
                                match bind_segments(segs_pre.drop_first(), pool_pre.remove(
                                    j as int,
                                )) {
                                    Ok(sp) => {
                                        assert(bound_pre + (seq![bound_seg_v] + sp.0)
                                            =~= segs_view(bound@) + sp.0);
                                    },
                                    Err(_) => {},
                                }
                            }
                        },
                        None => {
                            return Err(RouteError::UnboundPathParameter { name });
                        },
                    }
                },
            }
        }
        proof {
            assert(segs_view(segs@) =~= Seq::<PathParamV>::empty());
            match bind_segments(route_v.path_params, pool0) {
                Ok(sp) => {
                    assert(segs_view(bound@) + Seq::<PathParamV>::empty() =~= segs_view(bound@));
                },
                Err(_) => {},
            }
        }
        let ghost pool1 = pool_view(pool@);

        // Bind the query names, in declaration order.
        let mut qs = query_params;
        let mut bound_q: Vec<NamedParameter> = Vec::new();
        proof {
            assert(pool_view(bound_q@) =~= Seq::<NamedParameterV>::empty());
            assert(qs.deep_view() == route_v.query_params);
        }
        while qs.len() > 0
            invariant
                bind_queries(route_v.query_params, pool1) == (match bind_queries(
                    qs.deep_view(),
                    pool_view(pool@),
                ) {
                    Ok(qp) => Ok::<(Seq<NamedParameterV>, Seq<NamedParameterV>), RouteErrorV>(
                        (pool_view(bound_q@) + qp.0, qp.1),
                    ),
                    Err(e) => Err::<(Seq<NamedParameterV>, Seq<NamedParameterV>), RouteErrorV>(e),
                }),
            decreases qs.len(),
        {
            let ghost qs_pre = qs.deep_view();
            let ghost pool_pre = pool_view(pool@);
            let ghost boundq_pre = pool_view(bound_q@);
            let name = qs.remove(0);
            proof {
                assert(name@ == qs_pre[0]);
                assert(qs.deep_view() =~= qs_pre.drop_first());
            }
            match find_pool(&pool, &name) {
                Some(j) => {
                    let entry = pool.remove(j);
                    proof {
                        assert(entry@ == pool_pre[j as int]);
                        assert(pool_view(pool@) =~= pool_pre.remove(j as int));
                    }
                    let bound_entry = NamedParameter { name: entry.name, ty: entry.ty };
                    let ghost bound_entry_v = bound_entry@;
                    bound_q.push(bound_entry);
                    proof {
                        assert(pool_view(bound_q@) =~= boundq_pre.push(bound_entry_v));
                        match bind_queries(qs_pre.drop_first(), pool_pre.remove(j as int)) {
                            Ok(qp) => {
                                assert(boundq_pre + (seq![bound_entry_v] + qp.0) =~= pool_view(
                                    bound_q@,
                                ) + qp.0);
                            },
                            Err(_) => {},
                        }
                    }
                },
                None => {
                    return Err(RouteError::UnboundQueryParameter { name });
                },
            }
        }
        proof {
            assert(qs.deep_view() =~= Seq::<Seq<char>>::empty());
            match bind_queries(route_v.query_params, pool1) {
                Ok(qp) => {
                    assert(pool_view(bound_q@) + Seq::<NamedParameterV>::empty() =~= pool_view(
                        bound_q@,
                    ));
                },
                Err(_) => {},
            }
        }

        Ok(CompiledRoute { path_params: bound, query_params: bound_q, state, route_lit })
    }
}

/// What one segment contributes to the router path: a leading slash, then
/// the capture marker `:` or the greedy marker `*` with the segment's name,
/// or the literal text of a static segment.
pub open spec fn axum_seg_piece(p: PathParamV) -> Seq<char> {
    match p {
        PathParamV::Capture { name, .. } => seq!['/', ':'] + name,
        PathParamV::WildCard { name, .. } => seq!['/', '*'] + name,
        PathParamV::Static { text } => seq!['/'] + text,
    }
}

/// The router path string of a segment sequence.
pub open spec fn axum_path_v(segs: Seq<PathParamV>) -> Seq<char>
    decreases segs.len(),
{
    if segs.len() == 0 {
        Seq::empty()
    } else {
        axum_seg_piece(segs[0]) + axum_path_v(segs.drop_first())
    }
}

/// What one segment contributes to the display-format string: a leading
/// slash, then a positional placeholder for a capture or wildcard, or the
/// literal text of a static segment.
pub open spec fn format_seg_piece(p: PathParamV) -> Seq<char> {
    match p {
        PathParamV::Static { text } => seq!['/'] + text,
        _ => seq!['/', '{', '}'],
    }
}

/// The path part of the display-format string.
pub open spec fn format_path_segs_v(segs: Seq<PathParamV>) -> Seq<char>
    decreases segs.len(),
{
    if segs.len() == 0 {
        Seq::empty()
    } else {
        format_seg_piece(segs[0]) + format_path_segs_v(segs.drop_first())
    }
}

/// What one query parameter contributes to the display-format string:
/// `?name={}` for the first, `&name={}` for each later one.
pub open spec fn format_query_piece(first: bool, name: Seq<char>) -> Seq<char> {
    (if first {
        seq!['?']
    } else {
        seq!['&']
    }) + name + seq!['=', '{', '}']
}

/// The query part of the display-format string.
pub open spec fn format_queries_v(qs: Seq<NamedParameterV>, first: bool) -> Seq<char>
    decreases qs.len(),
{
    if qs.len() == 0 {
        Seq::empty()
    } else {
        format_query_piece(first, qs[0].name) + format_queries_v(qs.drop_first(), false)
    }
}

/// The display-format string of a compiled route, with the query parameters
/// appended where requested.
pub open spec fn format_path_v(c: CompiledRouteV, include_query_params: bool) -> Seq<char> {
    format_path_segs_v(c.path_params) + (if include_query_params {
        format_queries_v(c.query_params, true)
    } else {
        Seq::<char>::empty()
    })
}

/// The bound identifiers of the captures and wildcards, in path order.
pub open spec fn extracted_from_segs_v(segs: Seq<PathParamV>) -> Seq<Seq<char>>
    decreases segs.len(),
{
    if segs.len() == 0 {
        Seq::empty()
    } else {
        let rest = extracted_from_segs_v(segs.drop_first());
        match crate::parsing::spec_capture(segs[0]) {
            Some(p) => seq![p.0] + rest,
            None => rest,
        }
    }
}

/// The extracted identifiers of a compiled route: the captures and
/// wildcards in path order, then the query parameters in declaration order.
pub open spec fn extracted_idents_v(c: CompiledRouteV) -> Seq<Seq<char>> {
    extracted_from_segs_v(c.path_params) + c.query_params.map_values(|q: NamedParameterV| q.name)
}

/// The arguments not bound by the route, each under the position it holds
/// in the handler's argument list, counting from `i`.
pub open spec fn remaining_v(args: Seq<HandlerArgV>, bound: Seq<Seq<char>>, i: int) -> Seq<
    NumberedParameterV,
>
    decreases args.len(),
{
    if args.len() == 0 {
        Seq::empty()
    } else {
        let rest = remaining_v(args.drop_first(), bound, i + 1);
        let keep = match args[0].name {
            Some(n) => !bound.contains(n),
            None => true,
        };
        if keep {
            seq![NumberedParameterV { index: i, ty: args[0].ty }] + rest
        } else {
            rest
        }
    }
}

/// Whether some element of `names` holds the characters of `name`.
#[verifier::loop_isolation(false)]
fn contains_name(names: &Vec<String>, name: &String) -> (r: bool)
    ensures
        r == names.deep_view().contains(name@),
{
    let mut k: usize = 0;
    while k < names.len()
        invariant
            k <= names.len(),
            forall|t: int| 0 <= t < k ==> names.deep_view()[t] != name@,
        decreases names.len() - k,
    {
        if names[k] == *name {
            proof {
                assert(names.deep_view()[k as int] == name@);
            }
            return true;
        }
        proof {
            assert(names.deep_view()[k as int] == names@[k as int]@);
        }
        k += 1;
    }
    false
}

/// The doc-comment text of a compiled route: the original pattern and the
/// resolved state type.
pub open spec fn doc_comment_v(c: CompiledRouteV) -> Seq<char> {
    "# Handler information\n- Path: `"@ + c.route_lit + "`\n- State: `"@ + c.state + "`"@
}

impl CompiledRoute {
    /// The path string handed to the router: `:name` marks a capture and
    /// `*name` a greedy capture.
    #[verifier::loop_isolation(false)]
    pub fn to_axum_path_string(&self) -> (r: String)
        ensures
            r@ == axum_path_v(self@.path_params),
    {
        let ghost segs_v = self@.path_params;
        let mut path = String::new();
        proof {
            assert(segs_v.skip(0) =~= segs_v);
        }
        let mut i: usize = 0;
        while i < self.path_params.len()
            invariant
                i <= self.path_params.len(),
                axum_path_v(segs_v) == path@ + axum_path_v(segs_v.skip(i as int)),
            decreases self.path_params.len() - i,
        {
            let ghost pre = path@;
            proof {
                assert(segs_v.skip(i as int)[0] == segs_v[i as int]);
                assert(segs_v.skip(i as int).drop_first() =~= segs_v.skip(i + 1));
                assert(self.path_params@[i as int]@ == segs_v[i as int]);
            }
            match &self.path_params[i] {
                PathParam::Capture { name, .. } => {
                    path.append("/:");
                    path.append(name.as_str());
                    proof {
                        reveal_strlit("/:");
                        assert("/:"@ =~= seq!['/', ':']);
                        assert(path@ =~= pre + axum_seg_piece(segs_v[i as int]));
                    }
                },
                PathParam::WildCard { name, .. } => {
                    path.append("/*");
                    path.append(name.as_str());
                    proof {
                        reveal_strlit("/*");
                        assert("/*"@ =~= seq!['/', '*']);
                        assert(path@ =~= pre + axum_seg_piece(segs_v[i as int]));
                    }
                },
                PathParam::Static { text } => {
                    path.append("/");
                    path.append(text.as_str());
                    proof {
                        reveal_strlit("/");
                        assert("/"@ =~= seq!['/']);
                        assert(path@ =~= pre + axum_seg_piece(segs_v[i as int]));
                    }
                },
            }
            proof {
                assert((pre + axum_seg_piece(segs_v[i as int])) + axum_path_v(segs_v.skip(i + 1))
                    =~= pre + (axum_seg_piece(segs_v[i as int]) + axum_path_v(segs_v.skip(i + 1))));
            }
            i += 1;
        }
        proof {
            assert(segs_v.skip(segs_v.len() as int) =~= Seq::<PathParamV>::empty());
            assert(path@ + Seq::<char>::empty() =~= path@);
        }
        path
    }

    /// The display-format string: every capture and wildcard becomes the
    /// positional placeholder `{}`, and, where requested, `?name={}` and
    /// `&name={}` follow for the query parameters in declaration order.
    #[verifier::loop_isolation(false)]
    pub fn to_format_path_string(&self, include_query_params: bool) -> (r: String)
        ensures
            r@ == format_path_v(self@, include_query_params),
    {
        let ghost segs_v = self@.path_params;
        let ghost qs_v = self@.query_params;
        let mut path = String::new();
        proof {
            assert(segs_v.skip(0) =~= segs_v);
        }
        let mut i: usize = 0;
        while i < self.path_params.len()
            invariant
                i <= self.path_params.len(),
                format_path_segs_v(segs_v) == path@ + format_path_segs_v(segs_v.skip(i as int)),
            decreases self.path_params.len() - i,
        {
            let ghost pre = path@;
            proof {
                assert(segs_v.skip(i as int)[0] == segs_v[i as int]);
                assert(segs_v.skip(i as int).drop_first() =~= segs_v.skip(i + 1));
                assert(self.path_params@[i as int]@ == segs_v[i as int]);
            }
            match &self.path_params[i] {
                PathParam::Static { text } => {
                    path.append("/");
                    path.append(text.as_str());
                    proof {
                        reveal_strlit("/");
                        assert("/"@ =~= seq!['/']);
                        assert(path@ =~= pre + format_seg_piece(segs_v[i as int]));
                    }
                },
                _ => {
                    path.append("/{}");
                    proof {
                        reveal_strlit("/{}");
                        assert("/{}"@ =~= seq!['/', '{', '}']);
                        assert(path@ =~= pre + format_seg_piece(segs_v[i as int]));
                    }
                },
            }
            proof {
                assert((pre + format_seg_piece(segs_v[i as int])) + format_path_segs_v(
                    segs_v.skip(i + 1),
                ) =~= pre + (format_seg_piece(segs_v[i as int]) + format_path_segs_v(
                    segs_v.skip(i + 1),
                )));
            }
            i += 1;
        }
        proof {
            assert(segs_v.skip(segs_v.len() as int) =~= Seq::<PathParamV>::empty());
            assert(path@ + Seq::<char>::empty() =~= path@);
            assert(path@ == format_path_segs_v(segs_v));
        }

        if include_query_params {
            let ghost path0 = path@;
            proof {
                assert(qs_v.skip(0) =~= qs_v);
            }
            let mut qi: usize = 0;
            while qi < self.query_params.len()
                invariant
                    qi <= self.query_params.len(),
                    path0 + format_queries_v(qs_v, true) == path@ + format_queries_v(
                        qs_v.skip(qi as int),
                        qi == 0,
                    ),
                decreases self.query_params.len() - qi,
            {
                let ghost pre = path@;
                proof {
                    assert(qs_v.skip(qi as int)[0] == qs_v[qi as int]);
                    assert(qs_v.skip(qi as int).drop_first() =~= qs_v.skip(qi + 1));
                    assert(self.query_params@[qi as int]@ == qs_v[qi as int]);
                }
                if qi == 0 {
                    path.append("?");
                    proof {
                        reveal_strlit("?");
                        assert("?"@ =~= seq!['?']);
                    }
                } else {
                    path.append("&");
                    proof {
                        reveal_strlit("&");
                        assert("&"@ =~= seq!['&']);
                    }
                }
                path.append(self.query_params[qi].name.as_str());
                path.append("={}");
                proof {
                    reveal_strlit("={}");
                    assert("={}"@ =~= seq!['=', '{', '}']);
                    assert(path@ =~= pre + format_query_piece(qi == 0, qs_v[qi as int].name));
                    assert((pre + format_query_piece(qi == 0, qs_v[qi as int].name))
                        + format_queries_v(qs_v.skip(qi + 1), false) =~= pre + (format_query_piece(
                        qi == 0,
                        qs_v[qi as int].name,
                    ) + format_queries_v(qs_v.skip(qi + 1), false)));
                    assert(qi + 1 != 0);
                }
                qi += 1;
            }
            proof {
                assert(qs_v.skip(qs_v.len() as int) =~= Seq::<NamedParameterV>::empty());
                assert(path@ + Seq::<char>::empty() =~= path@);
                assert(path@ == format_path_v(self@, include_query_params));
            }
        } else {
            proof {
                assert(path@ + Seq::<char>::empty() =~= path@);
            }
        }
        path
    }

    /// The identifiers the generated code extracts, in the order it hands
    /// them on: path captures and wildcards left to right, then the query
    /// parameters in declaration order.
    #[verifier::loop_isolation(false)]
    pub fn extracted_idents(&self) -> (r: Vec<String>)
        ensures
            r.deep_view() == extracted_idents_v(self@),
    {
        let ghost segs_v = self@.path_params;
        let ghost qnames = self@.query_params.map_values(|q: NamedParameterV| q.name);
        let mut idents: Vec<String> = Vec::new();
        proof {
            assert(segs_v.skip(0) =~= segs_v);
            assert(idents.deep_view() =~= Seq::<Seq<char>>::empty());
        }
        let mut i: usize = 0;
        while i < self.path_params.len()
            invariant
                i <= self.path_params.len(),
                extracted_from_segs_v(segs_v) == idents.deep_view() + extracted_from_segs_v(
                    segs_v.skip(i as int),
                ),
            decreases self.path_params.len() - i,
        {
            let ghost pre = idents.deep_view();
            proof {
                assert(segs_v.skip(i as int)[0] == segs_v[i as int]);
                assert(segs_v.skip(i as int).drop_first() =~= segs_v.skip(i + 1));
                assert(self.path_params@[i as int]@ == segs_v[i as int]);
            }
            match self.path_params[i].capture() {
                Some(p) => {
                    idents.push(p.0.clone());
                    proof {
                        assert(idents.deep_view() =~= pre.push(crate::parsing::spec_capture(
                            segs_v[i as int],
                        )->Some_0.0));
                        assert(pre + (seq![
                            crate::parsing::spec_capture(segs_v[i as int])->Some_0.0,
                        ] + extracted_from_segs_v(segs_v.skip(i + 1))) =~= idents.deep_view()
                            + extracted_from_segs_v(segs_v.skip(i + 1)));
                    }
                },
                None => {},
            }
            i += 1;
        }
        proof {
            assert(segs_v.skip(segs_v.len() as int) =~= Seq::<PathParamV>::empty());
            assert(idents.deep_view() + Seq::<Seq<char>>::empty() =~= idents.deep_view());
            assert(idents.deep_view() == extracted_from_segs_v(segs_v));
        }

        let ghost idents0 = idents.deep_view();
        let mut qi: usize = 0;
        while qi < self.query_params.len()
            invariant
                qi <= self.query_params.len(),
                idents.deep_view() =~= idents0 + qnames.take(qi as int),
            decreases self.query_params.len() - qi,
        {
            let ghost pre = idents.deep_view();
            proof {
                assert(self.query_params@[qi as int]@.name == qnames[qi as int]);
            }
            idents.push(self.query_params[qi].name.clone());
            proof {
                assert(idents.deep_view() =~= pre.push(qnames[qi as int]));
                assert(qnames.take(qi + 1) =~= qnames.take(qi as int).push(qnames[qi as int]));
                assert(idents.deep_view() =~= idents0 + qnames.take(qi + 1));
            }
            qi += 1;
        }
        proof {
            assert(qnames.take(qnames.len() as int) =~= qnames);
            assert(idents.deep_view() =~= extracted_idents_v(self@));
        }
        idents
    }

    /// The handler arguments the route does not bind, in declaration order,
    /// each under the position it holds in the full argument list.
    #[verifier::loop_isolation(false)]
    pub fn remaining_pattypes_numbered(&self, args: &Vec<HandlerArg>) -> (r: Vec<
        NumberedParameter,
    >)
        ensures
            r@.map_values(|p: NumberedParameter| p@) == remaining_v(
                args_view(args@),
                extracted_idents_v(self@),
                0,
            ),
    {
        let bound = self.extracted_idents();
        let ghost bound_v = extracted_idents_v(self@);
        let ghost args_v = args_view(args@);
        let mut out: Vec<NumberedParameter> = Vec::new();
        proof {
            assert(args_v.skip(0) =~= args_v);
            assert(out@.map_values(|p: NumberedParameter| p@) =~= Seq::<
                NumberedParameterV,
            >::empty());
        }
        let mut i: usize = 0;
        while i < args.len()
            invariant
                i <= args.len(),
                bound.deep_view() == bound_v,
                remaining_v(args_v, bound_v, 0) == out@.map_values(|p: NumberedParameter| p@)
                    + remaining_v(args_v.skip(i as int), bound_v, i as int),
            decreases args.len() - i,
        {
            let ghost pre = out@.map_values(|p: NumberedParameter| p@);
            proof {
                assert(args_v.skip(i as int)[0] == args_v[i as int]);
                assert(args_v.skip(i as int).drop_first() =~= args_v.skip(i + 1));
                assert(args@[i as int]@ == args_v[i as int]);
            }
            let keep = match &args[i].name {
                Some(n) => !contains_name(&bound, n),
                None => true,
            };
            if keep {
                out.push(NumberedParameter { index: i, ty: args[i].ty.clone() });
                proof {
                    assert(out@.map_values(|p: NumberedParameter| p@) =~= pre.push(
                        NumberedParameterV { index: i as int, ty: args_v[i as int].ty },
                    ));
                    assert(pre + (seq![NumberedParameterV { index: i as int, ty: args_v[i as int].ty }]
                        + remaining_v(args_v.skip(i + 1), bound_v, i + 1)) =~= out@.map_values(
                        |p: NumberedParameter| p@,
                    ) + remaining_v(args_v.skip(i + 1), bound_v, i + 1));
                }
            }
            i += 1;
        }
        proof {
            assert(args_v.skip(args_v.len() as int) =~= Seq::<HandlerArgV>::empty());
            assert(out@.map_values(|p: NumberedParameter| p@) + Seq::<NumberedParameterV>::empty()
                =~= out@.map_values(|p: NumberedParameter| p@));
        }
        out
    }

    /// The doc-comment text describing this route: its pattern and its
    /// resolved state type.
    pub fn doc_comment_text(&self) -> (r: String)
        ensures
            r@ == doc_comment_v(self@),
    {
        let mut s = String::from_str("# Handler information\n- Path: `");
        s.append(self.route_lit.as_str());
        s.append("`\n- State: `");
        s.append(self.state.as_str());
        s.append("`");
        s
    }
}

} // verus!
