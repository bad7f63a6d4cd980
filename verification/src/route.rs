//! The route table: an immutable mapping from route name to upstream base.

use vstd::prelude::*;
use vstd::hash_map::StringHashMap;
use crate::config::RouteConfig;
use crate::error::{ConfigError, ConfigErrorView};
use crate::upstream_url::{valid_upstream, is_valid_upstream};

verus! {

/// A named mapping from an inbound path segment to an upstream base URL.
#[derive(Debug, Clone)]
pub struct Route {
    pub name: String,
    pub upstream_base: String,
    pub timeout_ms: Option<u64>,
}

/// A route as plain values.
pub ghost struct RouteView {
    pub name: Seq<char>,
    pub upstream_base: Seq<char>,
    pub timeout_ms: Option<u64>,
}

impl View for Route {
    type V = RouteView;

    open spec fn view(&self) -> RouteView {
        RouteView {
            name: self.name@,
            upstream_base: self.upstream_base@,
            timeout_ms: self.timeout_ms,
        }
    }
}

/// The route that a configuration record asks for.
pub open spec fn route_of_config(config: RouteConfig) -> RouteView {
    RouteView { name: config.path@, upstream_base: config.upstream@, timeout_ms: config.timeout_ms }
}

/// The error that entry `i` is refused with. A repeated name is reported
/// before an invalid upstream address.
pub open spec fn rejection(configs: Seq<RouteConfig>, i: int) -> ConfigErrorView {
    if duplicate_at(configs, i) {
        ConfigErrorView::DuplicateRoute(configs[i].path@)
    } else {
        ConfigErrorView::InvalidUpstream(configs[i].path@)
    }
}

/// Entry `i` repeats the name of an earlier entry.
pub open spec fn duplicate_at(configs: Seq<RouteConfig>, i: int) -> bool {
    exists|j: int| 0 <= j < i && #[trigger] configs[j].path@ == configs[i].path@
}

/// Entry `i` cannot be taken into a table that holds the entries before it.
pub open spec fn rejected_at(configs: Seq<RouteConfig>, i: int) -> bool {
    duplicate_at(configs, i) || !valid_upstream(configs[i].upstream@)
}

/// Every entry can be taken: names are pairwise distinct and every upstream
/// address is valid.
pub open spec fn acceptable(configs: Seq<RouteConfig>) -> bool {
    forall|i: int| 0 <= i < configs.len() ==> !rejected_at(configs, i)
}

/// The routes that a list of records asks for, in order.
pub open spec fn entries(configs: Seq<RouteConfig>) -> Seq<RouteView> {
    configs.map_values(|c: RouteConfig| route_of_config(c))
}

/// The mapping that a list of routes describes. Where a name occurs twice
/// the later route wins; `build` never lets that happen.
pub open spec fn table_of(routes: Seq<RouteView>) -> Map<Seq<char>, RouteView>
    decreases routes.len(),
{
    if routes.len() == 0 {
        Map::empty()
    } else {
        table_of(routes.drop_last()).insert(routes.last().name, routes.last())
    }
}

/// No two routes of the list have the same name.
pub open spec fn distinct_names(routes: Seq<RouteView>) -> bool {
    forall|i: int, j: int|
        0 <= i < j < routes.len() ==> (#[trigger] routes[i]).name != (#[trigger] routes[j]).name
}

/// The table of a list of routes with distinct names holds exactly the
/// names of the list, and under each name the route of that name.
pub proof fn lemma_table_holds_every_route(routes: Seq<RouteView>)
    requires
        distinct_names(routes),
    ensures
        forall|name: Seq<char>| #[trigger]
            table_of(routes).contains_key(name) <==> exists|i: int|
                0 <= i < routes.len() && (#[trigger] routes[i]).name == name,
        forall|i: int|
            0 <= i < routes.len() ==> table_of(routes).contains_key((#[trigger] routes[i]).name)
                && table_of(routes)[routes[i].name] == routes[i],
    decreases routes.len(),
{
    if routes.len() > 0 {
        let rest = routes.drop_last();
        assert forall|i: int, j: int| 0 <= i < j < rest.len() implies (#[trigger] rest[i]).name != (
        #[trigger] rest[j]).name by {
            assert(rest[i] == routes[i] && rest[j] == routes[j]);
        }
        lemma_table_holds_every_route(rest);
        assert forall|name: Seq<char>| #[trigger]
            table_of(routes).contains_key(name) <==> exists|i: int|
                0 <= i < routes.len() && (#[trigger] routes[i]).name == name by {
            if table_of(routes).contains_key(name) {
                if name == routes.last().name {
                    assert(routes[routes.len() - 1].name == name);
                } else {
                    assert(table_of(rest).contains_key(name));
                    let i = choose|i: int| 0 <= i < rest.len() && (#[trigger] rest[i]).name == name;
                    assert(rest[i] == routes[i]);
                    assert(routes[i].name == name);
                }
            }
            if exists|i: int| 0 <= i < routes.len() && (#[trigger] routes[i]).name == name {
                let i = choose|i: int| 0 <= i < routes.len() && (#[trigger] routes[i]).name == name;
                if i < rest.len() {
                    assert(rest[i] == routes[i]);
                    assert(rest[i].name == name);
                    assert(table_of(rest).contains_key(name));
                } else {
                    assert(routes[i] == routes.last());
                }
            }
        }
        assert forall|i: int| 0 <= i < routes.len() implies table_of(routes).contains_key(
            (#[trigger] routes[i]).name,
        ) && table_of(routes)[routes[i].name] == routes[i] by {
            if i < rest.len() {
                assert(rest[i] == routes[i]);
                assert(routes[i].name != routes[routes.len() - 1].name);
            }
        }
    }
}

/// The routes of an acceptable list of records have distinct names.
pub proof fn lemma_acceptable_names_are_distinct(configs: Seq<RouteConfig>)
    requires
        acceptable(configs),
    ensures
        distinct_names(entries(configs)),
{
    assert forall|i: int, j: int| 0 <= i < j < entries(configs).len() implies (
    #[trigger] entries(configs)[i]).name != (#[trigger] entries(configs)[j]).name by {
        if configs[i].path@ == configs[j].path@ {
            assert(duplicate_at(configs, j));
            assert(rejected_at(configs, j));
        }
    }
}

/// Every record of an acceptable list is found again in the table under its
/// name, whatever stands before or after it in the list.
pub proof fn lemma_build_holds_every_record(configs: Seq<RouteConfig>, i: int)
    requires
        acceptable(configs),
        0 <= i < configs.len(),
    ensures
        table_of(entries(configs)).contains_key(configs[i].path@),
        table_of(entries(configs))[configs[i].path@] == route_of_config(configs[i]),
{
    lemma_acceptable_names_are_distinct(configs);
    lemma_table_holds_every_route(entries(configs));
    assert(entries(configs)[i] == route_of_config(configs[i]));
}

/// The table does not depend on the order of the routes: two lists with
/// distinct names that hold the same routes describe the same table.
pub proof fn lemma_table_ignores_order(a: Seq<RouteView>, b: Seq<RouteView>)
    requires
        distinct_names(a),
        distinct_names(b),
        forall|r: RouteView| a.contains(r) <==> b.contains(r),
    ensures
        table_of(a) == table_of(b),
{
    lemma_table_holds_every_route(a);
    lemma_table_holds_every_route(b);
    assert forall|name: Seq<char>| table_of(a).contains_key(name) implies table_of(b).contains_key(
        name,
    ) && table_of(a)[name] == table_of(b)[name] by {
        let i = choose|i: int| 0 <= i < a.len() && (#[trigger] a[i]).name == name;
        assert(a.contains(a[i]));
        assert(b.contains(a[i]));
        let j = choose|j: int| 0 <= j < b.len() && b[j] == a[i];
        assert(b[j].name == name);
    }
    assert forall|name: Seq<char>| table_of(b).contains_key(name) implies table_of(a).contains_key(
        name,
    ) by {
        let j = choose|j: int| 0 <= j < b.len() && (#[trigger] b[j]).name == name;
        assert(b.contains(b[j]));
        assert(a.contains(b[j]));
        let i = choose|i: int| 0 <= i < a.len() && a[i] == b[j];
        assert(a[i].name == name);
    }
    assert(table_of(a) =~= table_of(b));
}

/// What `build` makes of an acceptable list of records does not depend on
/// the order of the records.
pub proof fn lemma_build_ignores_order(a: Seq<RouteConfig>, b: Seq<RouteConfig>)
    requires
        acceptable(a),
        acceptable(b),
        forall|r: RouteView| entries(a).contains(r) <==> entries(b).contains(r),
    ensures
        table_of(entries(a)) == table_of(entries(b)),
{
    lemma_acceptable_names_are_distinct(a);
    lemma_acceptable_names_are_distinct(b);
    lemma_table_ignores_order(entries(a), entries(b));
}

/// Read-only mapping from route name to route, built once at startup.
pub struct RouteTable {
    routes: StringHashMap<Route>,
}

impl View for RouteTable {
    type V = Map<Seq<char>, RouteView>;

    /// The table as a map from route name to route.
    closed spec fn view(&self) -> Map<Seq<char>, RouteView> {
        Map::new(
            |name: Seq<char>| self.routes@.contains_key(name),
            |name: Seq<char>| self.routes@[name]@,
        )
    }
}

impl RouteTable {
    #[verifier::type_invariant]
    spec fn well_formed(&self) -> bool {
        forall|name: Seq<char>| #[trigger]
            self.routes@.contains_key(name) ==> {
                &&& self.routes@[name].name@ == name
                &&& valid_upstream(self.routes@[name].upstream_base@)
            }
    }

    /// Builds the table from the configured routes, in order.
    ///
    /// The list is taken whole or not at all: the first entry that repeats an
    /// earlier name or whose upstream address is invalid decides the error.
    pub fn build(route_configs: &Vec<RouteConfig>) -> (built: Result<RouteTable, ConfigError>)
        ensures
            built is Ok <==> acceptable(route_configs@),
            built matches Ok(table) ==> table@ == table_of(entries(route_configs@)),
            built matches Err(e) ==> exists|i: int|
                {
                    &&& 0 <= i < route_configs.len()
                    &&& acceptable(route_configs@.take(i))
                    &&& #[trigger] rejected_at(route_configs@, i)
                    &&& e@ == rejection(route_configs@, i)
                },
    {
        let mut routes: StringHashMap<Route> = StringHashMap::new();
        let n = route_configs.len();
        let mut i: usize = 0;
        while i < n
            invariant
                i <= n,
                n == route_configs.len(),
                acceptable(route_configs@.take(i as int)),
                forall|name: Seq<char>| #[trigger]
                    routes@.contains_key(name) <==> exists|j: int|
                        0 <= j < i && #[trigger] route_configs[j].path@ == name,
                forall|name: Seq<char>| #[trigger]
                    routes@.contains_key(name) ==> {
                        &&& routes@[name].name@ == name
                        &&& valid_upstream(routes@[name].upstream_base@)
                        &&& routes@[name]@ == table_of(
                            entries(route_configs@.take(i as int)),
                        )[name]
                    },
                forall|name: Seq<char>| #[trigger]
                    routes@.contains_key(name) <==> table_of(
                        entries(route_configs@.take(i as int)),
                    ).contains_key(name),
            decreases n - i,
        {
            let config = &route_configs[i];
            let ghost before = route_configs@.take(i as int);
            let ghost after = route_configs@.take(i as int + 1);
            proof {
                assert(after.drop_last() =~= before);
                assert(entries(after).drop_last() =~= entries(before));
                assert(entries(after).last() == route_of_config(*config));
            }
            if routes.contains_key(config.path.as_str()) {
                proof {
                    let j = choose|j: int|
                        0 <= j < i && #[trigger] route_configs[j].path@ == config.path@;
                    assert(route_configs@[j].path@ == route_configs@[i as int].path@);
                    assert(duplicate_at(route_configs@, i as int));
                    assert(rejected_at(route_configs@, i as int));
                }
                return Err(ConfigError::DuplicateRoute(config.path.clone()));
            }
            proof {
                assert(!duplicate_at(route_configs@, i as int)) by {
                    if duplicate_at(route_configs@, i as int) {
                        let j = choose|j: int|
                            0 <= j < i && #[trigger] route_configs@[j].path@
                                == route_configs@[i as int].path@;
                        assert(route_configs[j].path@ == config.path@);
                        assert(routes@.contains_key(config.path@));
                    }
                }
            }
            if !is_valid_upstream(config.upstream.as_str()) {
                proof {
                    assert(rejected_at(route_configs@, i as int));
                }
                return Err(ConfigError::InvalidUpstream(config.path.clone()));
            }
            let route = Route {
                name: config.path.clone(),
                upstream_base: config.upstream.clone(),
                timeout_ms: config.timeout_ms,
            };
            let ghost earlier = routes@;
            routes.insert(config.path.clone(), route);
            proof {
                assert(!rejected_at(route_configs@, i as int));
                assert forall|k: int| 0 <= k < after.len() implies !rejected_at(after, k) by {
                    if k < i {
                        assert(!rejected_at(before, k));
                        if duplicate_at(after, k) {
                            let j = choose|j: int|
                                0 <= j < k && #[trigger] after[j].path@ == after[k].path@;
                            assert(before[j].path@ == before[k].path@);
                            assert(duplicate_at(before, k));
                        }
                    } else {
                        if duplicate_at(after, k) {
                            let j = choose|j: int|
                                0 <= j < k && #[trigger] after[j].path@ == after[k].path@;
                            assert(route_configs@[j].path@ == route_configs@[i as int].path@);
                            assert(duplicate_at(route_configs@, i as int));
                        }
                    }
                }
                assert forall|name: Seq<char>| #[trigger]
                    routes@.contains_key(name) <==> exists|j: int|
                        0 <= j < i + 1 && #[trigger] route_configs[j].path@ == name by {
                    if routes@.contains_key(name) {
                        if name == config.path@ {
                            assert(route_configs[i as int].path@ == name);
                        } else {
                            assert(earlier.contains_key(name));
                            let j = choose|j: int|
                                0 <= j < i && #[trigger] route_configs[j].path@ == name;
                            assert(0 <= j < i + 1 && route_configs[j].path@ == name);
                        }
                    }
                    if exists|j: int| 0 <= j < i + 1 && #[trigger] route_configs[j].path@ == name {
                        let j = choose|j: int|
                            0 <= j < i + 1 && #[trigger] route_configs[j].path@ == name;
                        if j < i {
                            assert(earlier.contains_key(name));
                        }
                    }
                }
            }
            i = i + 1;
        }
        proof {
            assert(route_configs@.take(n as int) =~= route_configs@);
        }
        let table = RouteTable { routes };
        proof {
            assert(table@ =~= table_of(entries(route_configs@)));
        }
        Ok(table)
    }

    /// Resolves a route name.
    pub fn lookup(&self, name: &str) -> (found: Option<&Route>)
        ensures
            found is Some <==> self@.contains_key(name@),
            found matches Some(route) ==> {
                &&& route@ == self@[name@]
                &&& route.name@ == name@
                &&& valid_upstream(route.upstream_base@)
            },
    {
        proof {
            use_type_invariant(self);
        }
        self.routes.get(name)
    }
}

} // verus!
