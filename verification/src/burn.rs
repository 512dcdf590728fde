//! Engines that burn, grouped by the propellant that they share.
use crate::fuel::{fuel_nodes, liquid_fuel_network, module_of, part_module};
use crate::lineage::{
    distinct_ids, feed_edge, law_network_is_open, law_networks_coincide, lemma_reaches_self, network,
    Node,
};
use crate::number::{
    law_integer_has_its_value, law_larger_and_smaller, law_named_numbers, law_no_number_compares,
    law_order_is_numeric, law_whole_numbers_compare, Real, EPSILON, INFINITE, ONE_MILLIONTH,
};
use crate::parts::{DefinitionView, PartCatalog, PartModule};
use crate::vessel::{RuntimePart, Vessel};
use std::collections::BTreeSet;
use vstd::arithmetic::power2::*;
use vstd::prelude::*;

verus! {

/// Engines that draw from one network of tanks.
#[derive(Debug)]
pub struct EngineGroup {
    /// The smallest part number of the network.
    pub network_id: u64,
    /// The part numbers of the network.
    pub members: BTreeSet<u64>,
    /// The places of the engines in the list of parts.
    pub engines: Vec<usize>,
}

/// Whether the part is a liquid engine that is lit, and, where `rated` asks for
/// it, has thrust and specific impulse in vacuum.
pub open spec fn is_lit_engine(
    part: RuntimePart,
    catalog: Map<Seq<char>, DefinitionView>,
    rated: bool,
) -> bool {
    part.active && !part.destroyed && match module_of(part, catalog) {
        Some(
            PartModule::LiquidEngine { thrust_vac, thrust_sl: _, isp_vac, isp_sl: _, gimbal_deg: _ },
        ) => !rated || thrust_vac > 0 && isp_vac > 0,
        _ => false,
    }
}

/// Whether `key` is the smallest member, or `start` where there is none.
pub open spec fn is_key(members: Set<u64>, start: u64, key: u64) -> bool {
    if exists|id: u64| members.contains(id) {
        members.contains(key) && forall|id: u64| members.contains(id) ==> key <= id
    } else {
        key == start
    }
}

/// The number of the part at that place.
pub open spec fn id_at(parts: Seq<RuntimePart>, place: int) -> u64 {
    parts[place].instance.instance_id
}

/// Whether the engine at that place belongs to the group.
pub open spec fn belongs(
    parts: Seq<RuntimePart>,
    nodes: Seq<Node>,
    place: int,
    network_id: u64,
) -> bool {
    is_key(network(nodes, id_at(parts, place)), id_at(parts, place), network_id)
}

/// Whether the group lists engines of its network, of the first `n` parts, in
/// their order, and has the members that the first of them has.
pub open spec fn is_group(
    parts: Seq<RuntimePart>,
    catalog: Map<Seq<char>, DefinitionView>,
    rated: bool,
    n: int,
    group: EngineGroup,
) -> bool {
    let nodes = fuel_nodes(parts, catalog);
    &&& group.engines.len() > 0
    &&& group.members@ == network(nodes, id_at(parts, group.engines@[0] as int))
    &&& forall|k: int|
        0 <= k < group.engines.len() ==> {
            &&& (#[trigger] group.engines@[k]) < n
            &&& is_lit_engine(parts[group.engines@[k] as int], catalog, rated)
            &&& belongs(parts, nodes, group.engines@[k] as int, group.network_id)
        }
    &&& forall|k: int, l: int|
        0 <= k < l < group.engines.len() ==> #[trigger] group.engines@[k] < #[trigger]
            group.engines@[l]
}

/// Whether the engine at that place stands in one of the groups.
pub open spec fn is_listed(groups: Seq<EngineGroup>, place: int) -> bool {
    exists|g: int, k: int|
        0 <= g < groups.len() && 0 <= k < groups[g].engines.len()
            && #[trigger] groups[g].engines@[k] == place
}

/// Whether the groups hold the lit engines among the first `n` parts, each
/// group the engines of one network, in the order of the network numbers.
pub open spec fn are_groups(
    parts: Seq<RuntimePart>,
    catalog: Map<Seq<char>, DefinitionView>,
    rated: bool,
    n: int,
    groups: Seq<EngineGroup>,
) -> bool {
    &&& forall|g: int|
        0 <= g < groups.len() ==> is_group(parts, catalog, rated, n, #[trigger] groups[g])
    &&& forall|g: int, h: int|
        0 <= g < h < groups.len() ==> (#[trigger] groups[g]).network_id < (
        #[trigger] groups[h]).network_id
    &&& forall|i: int|
        0 <= i < n && is_lit_engine(#[trigger] parts[i], catalog, rated) ==> is_listed(groups, i)
}

fn is_lit(part: &RuntimePart, catalog: &PartCatalog, rated: bool) -> (r: bool)
    ensures
        r == is_lit_engine(*part, catalog@, rated),
{
    part.active && !part.destroyed && match part_module(part, catalog) {
        Some(PartModule::LiquidEngine { thrust_vac, isp_vac, .. }) => !rated || thrust_vac > 0
            && isp_vac > 0,
        _ => false,
    }
}

/// The smallest part number of a network, or `start` where it is empty.
fn network_key(
    vessel: &Vessel,
    catalog: &PartCatalog,
    members: &BTreeSet<u64>,
    start: u64,
) -> (r: u64)
    requires
        members@ == network(fuel_nodes(vessel.parts@, catalog@), start),
    ensures
        is_key(members@, start, r),
{
    let ghost nodes = fuel_nodes(vessel.parts@, catalog@);
    let mut key: Option<u64> = None;
    for i in 0..vessel.parts.len()
        invariant
            match key {
                Some(least) => members@.contains(least) && forall|k: int|
                    0 <= k < i && members@.contains(
                        (#[trigger] vessel.parts@[k]).instance.instance_id,
                    ) ==> least <= vessel.parts@[k].instance.instance_id,
                None => forall|k: int|
                    0 <= k < i ==> !members@.contains(
                        (#[trigger] vessel.parts@[k]).instance.instance_id,
                    ),
            },
    {
        let id: u64 = vessel.parts[i].instance.instance_id;
        if members.contains(&id) {
            key = match key {
                Some(least) if least <= id => Some(least),
                _ => Some(id),
            };
        }
    }
    proof {
        assert forall|id: u64| members@.contains(id) implies exists|k: int|
            0 <= k < vessel.parts.len() && (#[trigger] vessel.parts@[k]).instance.instance_id
                == id by {
            law_network_is_open(nodes, start, id);
            let k = choose|k: int| 0 <= k < nodes.len() && (#[trigger] nodes[k]).id == id
                && nodes[k].open;
            assert(vessel.parts@[k].instance.instance_id == id);
        }
    }
    match key {
        Some(least) => least,
        None => start,
    }
}

/// The lit liquid engines, grouped by the network of tanks that feeds them.
pub fn engine_networks(vessel: &Vessel, catalog: &PartCatalog, rated: bool) -> (r: Vec<EngineGroup>)
    ensures
        are_groups(vessel.parts@, catalog@, rated, vessel.parts.len() as int, r@),
{
    let mut groups: Vec<EngineGroup> = Vec::new();
    for i in 0..vessel.parts.len()
        invariant
            are_groups(vessel.parts@, catalog@, rated, i as int, groups@),
    {
        if is_lit(&vessel.parts[i], catalog, rated) {
            let id: u64 = vessel.parts[i].instance.instance_id;
            let members = liquid_fuel_network(vessel, catalog, id);
            let key: u64 = network_key(vessel, catalog, &members, id);
            let ghost prior = groups@;
            let ghost all = members@;
            enlist(&mut groups, key, members, i);
            proof {
                let nodes = fuel_nodes(vessel.parts@, catalog@);
                assert(belongs(vessel.parts@, nodes, i as int, key));
                lemma_enlisted(vessel.parts@, catalog@, rated, i, prior, groups@, key, all);
            }
        } else {
            proof {
                assert forall|g: int| 0 <= g < groups@.len() implies is_group(
                    vessel.parts@,
                    catalog@,
                    rated,
                    i + 1,
                    #[trigger] groups@[g],
                ) by {
                    assert(is_group(vessel.parts@, catalog@, rated, i as int, groups@[g]));
                }
            }
        }
    }
    groups
}

/// Whether a group has gained the engine at that place, or is new with it.
pub open spec fn is_enlisted(
    prior: Seq<EngineGroup>,
    next: Seq<EngineGroup>,
    at: int,
    key: u64,
    members: Set<u64>,
    place: usize,
) -> bool {
    &&& 0 <= at < next.len()
    &&& at <= prior.len()
    &&& next[at].network_id == key
    &&& next.len() == prior.len() && prior[at].network_id == key && next
        == prior.update(at, next[at]) && next[at].members == prior[at].members
        && next[at].engines@ == prior[at].engines@.push(place) || next == prior.insert(
        at,
        next[at],
    ) && next[at].members@ == members && next[at].engines@ == seq![place]
    &&& forall|g: int| 0 <= g < at ==> (#[trigger] next[g]).network_id < key
    &&& forall|g: int| at < g < next.len() ==> key < (#[trigger] next[g]).network_id
}

fn enlist(groups: &mut Vec<EngineGroup>, key: u64, members: BTreeSet<u64>, place: usize)
    requires
        forall|g: int, h: int|
            0 <= g < h < old(groups).len() ==> (#[trigger] old(groups)@[g]).network_id < (
            #[trigger] old(groups)@[h]).network_id,
    ensures
        exists|at: int|
            is_enlisted(old(groups)@, final(groups)@, at, key, members@, place),
{
    let ghost prior = groups@;
    let ghost all = members@;
    let mut at: usize = 0;
    while at < groups.len() && groups[at].network_id < key
        invariant
            at <= groups.len(),
            groups@ == prior,
            forall|g: int| 0 <= g < at ==> (#[trigger] prior[g]).network_id < key,
        decreases groups.len() - at,
    {
        at = at + 1;
    }
    if at < groups.len() && groups[at].network_id == key {
        groups[at].engines.push(place);
        proof {
            assert(groups@ =~= prior.update(at as int, groups@[at as int]));
            assert(is_enlisted(prior, groups@, at as int, key, all, place));
        }
    } else {
        groups.insert(at, EngineGroup { network_id: key, members, engines: vec![place] });
        proof {
            assert(groups@[at as int].engines@ =~= seq![place]);
            assert(forall|g: int|
                at < g < groups@.len() ==> #[trigger] groups@[g] == prior[g - 1]);
            assert(is_enlisted(prior, groups@, at as int, key, all, place));
        }
    }
}

/// A group stays one when more parts are looked at.
proof fn lemma_group_stays(
    parts: Seq<RuntimePart>,
    catalog: Map<Seq<char>, DefinitionView>,
    rated: bool,
    n: int,
    group: EngineGroup,
)
    requires
        is_group(parts, catalog, rated, n, group),
    ensures
        is_group(parts, catalog, rated, n + 1, group),
{
}

/// A group stays one when it gains the next engine of its network.
proof fn lemma_group_grows(
    parts: Seq<RuntimePart>,
    catalog: Map<Seq<char>, DefinitionView>,
    rated: bool,
    place: usize,
    prior: EngineGroup,
    next: EngineGroup,
)
    requires
        place < parts.len(),
        is_group(parts, catalog, rated, place as int, prior),
        is_lit_engine(parts[place as int], catalog, rated),
        belongs(parts, fuel_nodes(parts, catalog), place as int, prior.network_id),
        next.network_id == prior.network_id,
        next.members == prior.members,
        next.engines@ == prior.engines@.push(place),
    ensures
        is_group(parts, catalog, rated, place + 1, next),
{
    let nodes = fuel_nodes(parts, catalog);
    assert forall|k: int| 0 <= k < next.engines.len() implies {
        &&& (#[trigger] next.engines@[k]) < place + 1
        &&& is_lit_engine(parts[next.engines@[k] as int], catalog, rated)
        &&& belongs(parts, nodes, next.engines@[k] as int, next.network_id)
    } by {
        if k < prior.engines@.len() {
            assert(next.engines@[k] == prior.engines@[k]);
        }
    }
    assert forall|k: int, l: int| 0 <= k < l < next.engines.len() implies #[trigger] next.engines@[k]
        < #[trigger] next.engines@[l] by {
        assert(next.engines@[k] == prior.engines@[k]);
        if l < prior.engines@.len() {
            assert(next.engines@[l] == prior.engines@[l]);
        }
    }
    assert(next.engines@[0] == prior.engines@[0]);
}

/// Where the groups of before stand after one has gained an engine.
proof fn lemma_places(
    prior: Seq<EngineGroup>,
    next: Seq<EngineGroup>,
    at: int,
    key: u64,
    members: Set<u64>,
    place: usize,
)
    requires
        is_enlisted(prior, next, at, key, members, place),
    ensures
        forall|g: int| 0 <= g < at ==> #[trigger] next[g] == prior[g],
        next.len() == prior.len() ==> forall|g: int|
            at < g < next.len() ==> #[trigger] next[g] == prior[g],
        next.len() != prior.len() ==> next.len() == prior.len() + 1 && forall|g: int|
            at < g < next.len() ==> #[trigger] next[g] == prior[g - 1],
{
}

proof fn lemma_enlisted(
    parts: Seq<RuntimePart>,
    catalog: Map<Seq<char>, DefinitionView>,
    rated: bool,
    place: usize,
    prior: Seq<EngineGroup>,
    next: Seq<EngineGroup>,
    key: u64,
    all: Set<u64>,
)
    requires
        place < parts.len(),
        are_groups(parts, catalog, rated, place as int, prior),
        is_lit_engine(parts[place as int], catalog, rated),
        belongs(parts, fuel_nodes(parts, catalog), place as int, key),
        all == network(fuel_nodes(parts, catalog), id_at(parts, place as int)),
        exists|at: int| is_enlisted(prior, next, at, key, all, place),
    ensures
        are_groups(parts, catalog, rated, place + 1, next),
{
    let at = choose|at: int| is_enlisted(prior, next, at, key, all, place);
    lemma_places(prior, next, at, key, all, place);
    let grown = next.len() == prior.len();
    assert forall|g: int| 0 <= g < next.len() implies is_group(
        parts,
        catalog,
        rated,
        place + 1,
        #[trigger] next[g],
    ) by {
        let source = if grown || g < at { g } else { g - 1 };
        if g != at {
            lemma_group_stays(parts, catalog, rated, place as int, prior[source]);
        } else if grown {
            lemma_group_grows(parts, catalog, rated, place, prior[at], next[at]);
        }
    }
    assert forall|g: int, h: int| 0 <= g < h < next.len() implies (#[trigger] next[g]).network_id
        < (#[trigger] next[h]).network_id by {
        let a = if grown || g < at { g } else { g - 1 };
        let b = if grown || h < at { h } else { h - 1 };
        if g != at && h != at {
            assert(prior[a].network_id < prior[b].network_id);
        }
    }
    assert forall|j: int| 0 <= j < place + 1 && is_lit_engine(
        #[trigger] parts[j],
        catalog,
        rated,
    ) implies is_listed(next, j) by {
        if j == place {
            let k = next[at].engines.len() - 1;
            assert(next[at].engines@[k] == j);
        } else {
            assert(is_listed(prior, j));
            let (g, k) = choose|g: int, k: int|
                0 <= g < prior.len() && 0 <= k < prior[g].engines.len()
                    && #[trigger] prior[g].engines@[k] == j;
            let h = if grown || g < at { g } else { g + 1 };
            assert(next[h].engines@[k] == j);
        }
    }
}

/// All engines of a group draw from the very tanks of the group.
pub proof fn law_group_shares_tanks(
    parts: Seq<RuntimePart>,
    catalog: Map<Seq<char>, DefinitionView>,
    rated: bool,
    n: int,
    group: EngineGroup,
    k: int,
)
    requires
        n <= parts.len(),
        distinct_ids(fuel_nodes(parts, catalog)),
        is_group(parts, catalog, rated, n, group),
        0 <= k < group.engines.len(),
    ensures
        network(fuel_nodes(parts, catalog), id_at(parts, group.engines@[k] as int))
            == group.members@,
        group.members@.contains(id_at(parts, group.engines@[k] as int)),
{
    let nodes = fuel_nodes(parts, catalog);
    let first = group.engines@[0] as int;
    let other = group.engines@[k] as int;
    let a = id_at(parts, first);
    let b = id_at(parts, other);
    lemma_engine_feeds_itself(parts, catalog, rated, first);
    lemma_engine_feeds_itself(parts, catalog, rated, other);
    assert(belongs(parts, nodes, first, group.network_id));
    assert(belongs(parts, nodes, other, group.network_id));
    law_networks_coincide(nodes, a, group.network_id);
    law_networks_coincide(nodes, b, group.network_id);
}

/// An engine stands in one group alone.
pub proof fn law_engine_has_one_group(
    parts: Seq<RuntimePart>,
    catalog: Map<Seq<char>, DefinitionView>,
    rated: bool,
    n: int,
    groups: Seq<EngineGroup>,
    g: int,
    k: int,
    h: int,
    l: int,
)
    requires
        are_groups(parts, catalog, rated, n, groups),
        0 <= g < groups.len(),
        0 <= h < groups.len(),
        0 <= k < groups[g].engines.len(),
        0 <= l < groups[h].engines.len(),
        groups[g].engines@[k] == groups[h].engines@[l],
    ensures
        g == h && k == l,
{
    let nodes = fuel_nodes(parts, catalog);
    let place = groups[g].engines@[k] as int;
    assert(is_group(parts, catalog, rated, n, groups[g]));
    assert(is_group(parts, catalog, rated, n, groups[h]));
    assert(belongs(parts, nodes, place, groups[g].network_id));
    assert(belongs(parts, nodes, groups[h].engines@[l] as int, groups[h].network_id));
    if g < h {
        assert(groups[g].network_id < groups[h].network_id);
    } else if h < g {
        assert(groups[h].network_id < groups[g].network_id);
    } else if k < l {
        assert(groups[g].engines@[k] < groups[g].engines@[l]);
    } else if l < k {
        assert(groups[g].engines@[l] < groups[g].engines@[k]);
    }
}

/// A lit engine is part of its own network.
proof fn lemma_engine_feeds_itself(
    parts: Seq<RuntimePart>,
    catalog: Map<Seq<char>, DefinitionView>,
    rated: bool,
    place: int,
)
    requires
        0 <= place < parts.len(),
        is_lit_engine(parts[place], catalog, rated),
    ensures
        network(fuel_nodes(parts, catalog), id_at(parts, place)).contains(id_at(parts, place)),
{
    let nodes = fuel_nodes(parts, catalog);
    assert(nodes[place].id == id_at(parts, place) && nodes[place].open);
    lemma_reaches_self(feed_edge(nodes), id_at(parts, place));
}

/// Whether the part is a lit solid engine with propellant left.
pub open spec fn is_lit_solid(
    part: RuntimePart,
    catalog: Map<Seq<char>, DefinitionView>,
) -> bool {
    part.active && !part.destroyed && module_of(part, catalog) is Some && module_of(part, catalog)->0
        is SolidEngine && Real::spec_of(0).spec_below(part.fuel)
}

/// Whether the part is a lit solid engine with thrust, specific impulse and more
/// than a trace of propellant.
pub open spec fn is_rated_solid(
    part: RuntimePart,
    catalog: Map<Seq<char>, DefinitionView>,
) -> bool {
    part.active && !part.destroyed && Real::spec_of(EPSILON).spec_below(part.fuel) && match module_of(
        part,
        catalog,
    ) {
        Some(PartModule::SolidEngine { thrust, isp, fuel: _ }) => thrust > 0 && isp > 0,
        _ => false,
    }
}

/// Whether the places are those of the wanted parts, in their order.
pub open spec fn are_places(
    parts: Seq<RuntimePart>,
    wanted: spec_fn(RuntimePart) -> bool,
    n: int,
    places: Seq<usize>,
) -> bool {
    &&& forall|k: int|
        0 <= k < places.len() ==> (#[trigger] places[k]) < n && wanted(parts[places[k] as int])
    &&& forall|k: int, l: int|
        0 <= k < l < places.len() ==> #[trigger] places[k] < #[trigger] places[l]
    &&& forall|i: int|
        0 <= i < n && wanted(#[trigger] parts[i]) ==> exists|k: int|
            0 <= k < places.len() && #[trigger] places[k] == i
}

/// Looking at one part more.
pub proof fn lemma_place_added(
    parts: Seq<RuntimePart>,
    wanted: spec_fn(RuntimePart) -> bool,
    place: usize,
    prior: Seq<usize>,
)
    requires
        place < parts.len(),
        are_places(parts, wanted, place as int, prior),
    ensures
        wanted(parts[place as int]) ==> are_places(parts, wanted, place + 1, prior.push(place)),
        !wanted(parts[place as int]) ==> are_places(parts, wanted, place + 1, prior),
{
    if wanted(parts[place as int]) {
        let next = prior.push(place);
        assert forall|i: int| 0 <= i < place + 1 && wanted(#[trigger] parts[i]) implies exists|k: int|
            0 <= k < next.len() && #[trigger] next[k] == i by {
            if i == place {
                assert(next[prior.len() as int] == i);
            } else {
                let k = choose|k: int| 0 <= k < prior.len() && #[trigger] prior[k] == i;
                assert(next[k] == i);
            }
        }
    }
}

/// The places of the lit solid engines with propellant left.
pub fn solid_engines(vessel: &Vessel, catalog: &PartCatalog) -> (r: Vec<usize>)
    ensures
        are_places(
            vessel.parts@,
            |part: RuntimePart| is_lit_solid(part, catalog@),
            vessel.parts.len() as int,
            r@,
        ),
{
    let ghost wanted = |part: RuntimePart| is_lit_solid(part, catalog@);
    let mut r: Vec<usize> = Vec::new();
    for i in 0..vessel.parts.len()
        invariant
            wanted == (|part: RuntimePart| is_lit_solid(part, catalog@)),
            are_places(vessel.parts@, wanted, i as int, r@),
    {
        proof {
            lemma_place_added(vessel.parts@, wanted, i, r@);
        }
        if burns_solid(&vessel.parts[i], catalog) {
            r.push(i);
        }
    }
    r
}

/// The places of the lit solid engines that can drive the vessel in vacuum.
pub fn rated_solid_engines(vessel: &Vessel, catalog: &PartCatalog) -> (r: Vec<usize>)
    ensures
        are_places(
            vessel.parts@,
            |part: RuntimePart| is_rated_solid(part, catalog@),
            vessel.parts.len() as int,
            r@,
        ),
{
    let ghost wanted = |part: RuntimePart| is_rated_solid(part, catalog@);
    let mut r: Vec<usize> = Vec::new();
    for i in 0..vessel.parts.len()
        invariant
            wanted == (|part: RuntimePart| is_rated_solid(part, catalog@)),
            are_places(vessel.parts@, wanted, i as int, r@),
    {
        proof {
            lemma_place_added(vessel.parts@, wanted, i, r@);
        }
        let part = &vessel.parts[i];
        if part.active && !part.destroyed && Real::of(EPSILON).is_below(part.fuel) {
            if let Some(PartModule::SolidEngine { thrust, isp, .. }) = part_module(part, catalog) {
                if thrust > 0 && isp > 0 {
                    r.push(i);
                }
            }
        }
    }
    r
}

fn burns_solid(part: &RuntimePart, catalog: &PartCatalog) -> (r: bool)
    ensures
        r == is_lit_solid(*part, catalog@),
{
    part.active && !part.destroyed && matches!(
        part_module(part, catalog),
        Some(PartModule::SolidEngine { .. })
    ) && Real::zero().is_below(part.fuel)
}

/// A solid engine with that much propellant left; it goes out when at most a
/// millionth of a kilogram is.
pub open spec fn with_solid_left(part: RuntimePart, left: Real) -> RuntimePart {
    RuntimePart {
        fuel: left,
        active: part.active && !left.spec_at_most(Real::spec_of(ONE_MILLIONTH)),
        ..part
    }
}

/// Whether `after` is the vessel `before` after a burn of its solid engines.
pub open spec fn is_solid_burn<F: Fn(Real, u32, u32) -> Real>(
    before: Vessel,
    after: Vessel,
    catalog: Map<Seq<char>, DefinitionView>,
    left: F,
) -> bool {
    &&& after == (Vessel { parts: after.parts, ..before })
    &&& after.parts@.len() == before.parts@.len()
    &&& forall|i: int|
        0 <= i < before.parts@.len() ==> is_solid_step(
            #[trigger] before.parts@[i],
            after.parts@[i],
            catalog,
            left,
        )
}

/// Burns every lit solid engine; `left` says what a burn leaves of a load of
/// propellant at the engine's thrust and specific impulse.
pub fn burn_solid_engines<F: Fn(Real, u32, u32) -> Real>(
    vessel: &mut Vessel,
    catalog: &PartCatalog,
    left: F,
)
    requires
        forall|a: Real, b: u32, c: u32| call_requires(left, (a, b, c)),
    ensures
        is_solid_burn(*old(vessel), *final(vessel), catalog@, left),
{
    let ghost before = vessel.parts@;
    let count: usize = vessel.parts.len();
    for i in 0..count
        invariant
            forall|a: Real, b: u32, c: u32| call_requires(left, (a, b, c)),
            count == before.len(),
            vessel.parts.len() == before.len(),
            *vessel == (Vessel { parts: vessel.parts, ..*old(vessel) }),
            before == old(vessel).parts@,
            forall|k: int| i <= k < before.len() ==> vessel.parts@[k] == #[trigger] before[k],
            forall|k: int|
                0 <= k < i ==> is_solid_step(
                    #[trigger] before[k],
                    vessel.parts@[k],
                    catalog@,
                    left,
                ),
    {
        proof {
            assert(vessel.parts@[i as int] == before[i as int]);
        }
        if burns_solid(&vessel.parts[i], catalog) {
            if let Some(PartModule::SolidEngine { thrust, isp, .. }) = part_module(
                &vessel.parts[i],
                catalog,
            ) {
                let rest = left(vessel.parts[i].fuel, thrust, isp);
                vessel.parts[i].fuel = rest;
                if rest.is_at_most(Real::of(ONE_MILLIONTH)) {
                    vessel.parts[i].active = false;
                }
                proof {
                    assert(call_ensures(left, (before[i as int].fuel, thrust, isp), rest));
                }
            }
        }
    }
}

/// Whether `after` is what one burn makes of the part `before`.
pub open spec fn is_solid_step<F: Fn(Real, u32, u32) -> Real>(
    before: RuntimePart,
    after: RuntimePart,
    catalog: Map<Seq<char>, DefinitionView>,
    left: F,
) -> bool {
    if is_lit_solid(before, catalog) {
        match module_of(before, catalog) {
            Some(PartModule::SolidEngine { thrust, isp, fuel: _ }) => exists|rest: Real| #[trigger]
                call_ensures(left, (before.fuel, thrust, isp), rest) && after == with_solid_left(
                    before,
                    rest,
                ),
            _ => false,
        }
    } else {
        after == before
    }
}

/// Whether the place is that of the first part with the number `id`.
pub open spec fn is_first_with_id(parts: Seq<RuntimePart>, id: u64, place: int) -> bool {
    0 <= place < parts.len() && id_at(parts, place) == id && forall|k: int|
        0 <= k < place ==> (#[trigger] parts[k]).instance.instance_id != id
}

/// A solid engine with what a long burn left of its propellant, or nothing where that is
/// negative; with a trace of it left or less the engine goes out.
pub open spec fn burned_out(part: RuntimePart, left: Real) -> RuntimePart {
    let rest = left.spec_larger(Real::spec_of(0));
    RuntimePart {
        fuel: rest,
        active: part.active && !rest.spec_at_most(Real::spec_of(EPSILON)),
        ..part
    }
}

/// Whether `after` is the vessel `before` with that left to the first part with that number.
pub open spec fn is_burned_down(before: Vessel, after: Vessel, id: u64, left: Real) -> bool {
    &&& after == (Vessel { parts: after.parts, ..before })
    &&& after.parts@.len() == before.parts@.len()
    &&& forall|i: int|
        0 <= i < before.parts@.len() ==> #[trigger] after.parts@[i] == (if is_first_with_id(
            before.parts@,
            id,
            i,
        ) {
            burned_out(before.parts@[i], left)
        } else {
            before.parts@[i]
        })
}

/// Leaves the first part with that number with what a long burn left of its
/// propellant, or nothing where that is negative; with a trace of it left or
/// less the engine goes out.
pub fn burn_down(vessel: &mut Vessel, id: u64, left: Real)
    ensures
        is_burned_down(*old(vessel), *final(vessel), id, left),
{
    let count: usize = vessel.parts.len();
    for i in 0..count
        invariant
            *vessel == *old(vessel),
            count == vessel.parts.len(),
            forall|k: int|
                0 <= k < i ==> (#[trigger] vessel.parts@[k]).instance.instance_id != id,
    {
        if vessel.parts[i].instance.instance_id == id {
            let rest = left.larger(Real::zero());
            vessel.parts[i].fuel = rest;
            if rest.is_at_most(Real::of(EPSILON)) {
                vessel.parts[i].active = false;
            }
            return;
        }
    }
}

/// The shortest of the first `n` times, or endless where there are none.
pub open spec fn shortest(times: Seq<Real>, n: int) -> Real
    decreases n,
{
    if n <= 0 {
        Real::spec_of(INFINITE)
    } else {
        shortest(times, n - 1).spec_smaller(times[n - 1])
    }
}

/// How long all engines can burn together, given how long the propellant of each lasts:
/// until the first runs dry. Nothing burns for no time or without end.
pub open spec fn duration_of(times: Seq<Real>) -> Option<Real> {
    let time = shortest(times, times.len() as int);
    if time.spec_is_finite() && !time.spec_at_most(Real::spec_of(0)) {
        Some(time)
    } else {
        None
    }
}

/// How long all engines can burn together, given how long the propellant of each lasts:
/// until the first runs dry. Nothing burns for no time or without end.
pub fn burn_duration(times: &Vec<Real>) -> (r: Option<Real>)
    ensures
        r == duration_of(times@),
{
    let mut time = Real::of(INFINITE);
    for i in 0..times.len()
        invariant
            time == shortest(times@, i as int),
    {
        time = time.smaller(times[i]);
    }
    if time.is_finite() && !time.is_at_most(Real::zero()) {
        Some(time)
    } else {
        None
    }
}

/// No engine runs dry before the end of a burn.
pub proof fn law_burn_ends_with_the_first(times: Seq<Real>, n: int, i: int)
    requires
        0 <= i < n <= times.len(),
        !times[i].spec_is_nan(),
    ensures
        shortest(times, n).spec_at_most(times[i]),
        !shortest(times, n).spec_is_nan(),
    decreases n,
{
    lemma_shortest_is_a_number(times, n - 1);
    if i < n - 1 {
        law_burn_ends_with_the_first(times, n - 1, i);
    }
}

proof fn lemma_shortest_is_a_number(times: Seq<Real>, n: int)
    requires
        n <= times.len(),
    ensures
        !shortest(times, n).spec_is_nan(),
    decreases n,
{
    if n > 0 {
        lemma_shortest_is_a_number(times, n - 1);
    }
}

/// Whether the part is a liquid engine that runs.
pub open spec fn runs_on_liquid(
    part: RuntimePart,
    catalog: Map<Seq<char>, DefinitionView>,
) -> bool {
    &&& part.active
    &&& !part.destroyed
    &&& catalog.contains_key(part.instance.definition_id@)
    &&& catalog[part.instance.definition_id@].module is LiquidEngine
}

/// Every running liquid engine, and nothing else, stands in a group, after the smallest part
/// number that its propellant reaches; where only engines with thrust in the void count, one
/// without is left out.
pub proof fn law_groups_hold_the_running_engines(
    vessel: &Vessel,
    catalog: &PartCatalog,
    rated: bool,
    r: Vec<EngineGroup>,
    g: int,
    k: int,
    i: int,
    members: BTreeSet<u64>,
)
    requires
        call_ensures(engine_networks, (vessel, catalog, rated), r),
        0 <= g < r@.len(),
        0 <= k < r@[g].engines@.len(),
        0 <= i < vessel.parts@.len(),
        call_ensures(
            liquid_fuel_network,
            (vessel, catalog, vessel.parts@[r@[g].engines@[k] as int].instance.instance_id),
            members,
        ),
    ensures
        r@[g].engines@[k] < vessel.parts@.len(),
        ({
            let part = vessel.parts@[r@[g].engines@[k] as int];
            let module = catalog@[part.instance.definition_id@].module;
            &&& runs_on_liquid(part, catalog@)
            &&& rated ==> module->thrust_vac > 0 && module->isp_vac > 0
            &&& forall|id: u64| #[trigger] members@.contains(id) ==> r@[g].network_id <= id
            &&& members@.contains(r@[g].network_id)
        }),
        runs_on_liquid(vessel.parts@[i], catalog@) && (!rated
            || catalog@[vessel.parts@[i].instance.definition_id@].module->thrust_vac > 0
            && catalog@[vessel.parts@[i].instance.definition_id@].module->isp_vac > 0)
            ==> exists|h: int, l: int|
            0 <= h < r@.len() && 0 <= l < r@[h].engines@.len() && #[trigger] r@[h].engines@[l] == i,
{
    let n = vessel.parts@.len() as int;
    let nodes = fuel_nodes(vessel.parts@, catalog@);
    assert(is_group(vessel.parts@, catalog@, rated, n, r@[g]));
    let place = r@[g].engines@[k] as int;
    assert(belongs(vessel.parts@, nodes, place, r@[g].network_id));
    lemma_engine_feeds_itself(vessel.parts@, catalog@, rated, place);
    assert(is_lit_engine(vessel.parts@[place], catalog@, rated));
    if is_lit_engine(vessel.parts@[i], catalog@, rated) {
        assert(is_listed(r@, i));
    }
}

/// The solid engines that burn are the flying ones that were lit and hold fuel, in the order
/// of the parts; those that count towards the reach hold more than a trace and have thrust.
pub proof fn law_solid_engines_that_burn(
    vessel: &Vessel,
    catalog: &PartCatalog,
    lit: Vec<usize>,
    rated: Vec<usize>,
    i: int,
)
    requires
        call_ensures(solid_engines, (vessel, catalog), lit),
        call_ensures(rated_solid_engines, (vessel, catalog), rated),
        0 <= i < vessel.parts@.len(),
        vessel.parts@[i].fuel.spec_is_finite(),
    ensures
        ({
            let part = vessel.parts@[i];
            let module = catalog@[part.instance.definition_id@].module;
            let burns = part.active && !part.destroyed && catalog@.contains_key(
                part.instance.definition_id@,
            ) && module is SolidEngine;
            &&& burns && part.fuel.value() > 0 <==> exists|k: int|
                0 <= k < lit@.len() && #[trigger] lit@[k] == i
            &&& burns && part.fuel.value() * pow2(52) > pow2(1074) && module->SolidEngine_thrust > 0
                && module->SolidEngine_isp > 0 <==> exists|k: int|
                0 <= k < rated@.len() && #[trigger] rated@[k] == i
        }),
        forall|k: int, l: int| 0 <= k < l < lit@.len() ==> #[trigger] lit@[k] < #[trigger] lit@[l],
        forall|k: int, l: int|
            0 <= k < l < rated@.len() ==> #[trigger] rated@[k] < #[trigger] rated@[l],
{
    let part = vessel.parts@[i];
    law_whole_numbers_compare(0, part.fuel);
    lemma_above_a_trace(part.fuel);
}

pub proof fn lemma_above_a_trace(fuel: Real)
    requires
        fuel.spec_is_finite(),
    ensures
        Real::spec_of(EPSILON).spec_is_finite(),
        Real::spec_of(EPSILON).spec_below(fuel) == (fuel.value() * pow2(52) > pow2(1074)),
        fuel.spec_at_most(Real::spec_of(EPSILON)) == (fuel.value() * pow2(52) <= pow2(1074)),
{
    law_named_numbers();
    let trace = Real::spec_of(EPSILON);
    law_order_is_numeric(trace, fuel);
    law_order_is_numeric(fuel, trace);
    lemma_pow2_pos(52);
    let (a, b, c) = (trace.value(), fuel.value(), pow2(52) as int);
    assert((a < b) == (a * c < b * c)) by (nonlinear_arith)
        requires
            c > 0,
    ;
}

/// A burn of the solid engines uses up the fuel of those that burn, each after its own thrust
/// and impulse, and puts out one that has come to a millionth of a kilogram or less. It
/// touches nothing else.
pub proof fn law_solid_engines_burn_alone<F: Fn(Real, u32, u32) -> Real>(
    vessel: &mut Vessel,
    catalog: &PartCatalog,
    left: F,
    i: int,
)
    requires
        call_ensures(burn_solid_engines::<F>, (vessel, catalog, left), ()),
        0 <= i < old(vessel).parts@.len(),
        old(vessel).parts@[i].fuel.spec_is_finite(),
    ensures
        *final(vessel) == (Vessel { parts: final(vessel).parts, ..*old(vessel) }),
        final(vessel).parts@.len() == old(vessel).parts@.len(),
        ({
            let before = old(vessel).parts@[i];
            let after = final(vessel).parts@[i];
            let module = catalog@[before.instance.definition_id@].module;
            let burns = before.active && !before.destroyed && catalog@.contains_key(
                before.instance.definition_id@,
            ) && module is SolidEngine && before.fuel.value() > 0;
            &&& !burns ==> after == before
            &&& burns ==> after == (RuntimePart { fuel: after.fuel, active: after.active, ..before })
                && call_ensures(
                left,
                (before.fuel, module->SolidEngine_thrust, module->SolidEngine_isp),
                after.fuel,
            )
            &&& burns && after.fuel.spec_is_finite() ==> after.active == (after.fuel.value()
                > Real::spec_of(ONE_MILLIONTH).value())
        }),
{
    let before = vessel.parts@[i];
    let after = final(vessel).parts@[i];
    law_whole_numbers_compare(0, before.fuel);
    assert(is_solid_step(before, after, catalog@, left));
    if after.fuel.spec_is_finite() {
        law_named_numbers();
        law_order_is_numeric(after.fuel, Real::spec_of(ONE_MILLIONTH));
    }
}

/// A solid engine that burned for a while holds what is left, never less than nothing, and is
/// out once that is no more than a trace. Every other part, and any later part of the same
/// number, stays as it is.
pub proof fn law_burned_engine_holds_the_rest(vessel: &mut Vessel, id: u64, left: Real, i: int)
    requires
        call_ensures(burn_down, (vessel, id, left), ()),
        0 <= i < old(vessel).parts@.len(),
        left.spec_is_finite(),
    ensures
        *final(vessel) == (Vessel { parts: final(vessel).parts, ..*old(vessel) }),
        final(vessel).parts@.len() == old(vessel).parts@.len(),
        ({
            let before = old(vessel).parts@[i];
            let after = final(vessel).parts@[i];
            let first = before.instance.instance_id == id && forall|k: int|
                0 <= k < i ==> (#[trigger] old(vessel).parts@[k]).instance.instance_id != id;
            &&& !first ==> after == before
            &&& first ==> after == (RuntimePart { fuel: after.fuel, active: after.active, ..before })
            &&& first && left.value() > 0 ==> after.fuel == left
            &&& first && left.value() <= 0 ==> after.fuel.value() == 0
            &&& first ==> after.active == (before.active && left.value() * pow2(52) > pow2(1074))
        }),
{
    let before = vessel.parts@[i];
    let zero = Real::spec_of(0);
    law_integer_has_its_value(0);
    law_larger_and_smaller(left, zero, left);
    lemma_above_a_trace(left.spec_larger(zero));
    lemma_pow2_pos(52);
    lemma_pow2_pos(1074);
    assert(left.value() <= 0 ==> left.value() * pow2(52) <= 0) by (nonlinear_arith)
        requires
            pow2(52) > 0,
    ;
    assert(final(vessel).parts@[i] == if is_first_with_id(vessel.parts@, id, i) {
        burned_out(before, left)
    } else {
        before
    });
}

proof fn lemma_shortest_is_one(times: Seq<Real>, n: int)
    requires
        0 <= n <= times.len(),
    ensures
        shortest(times, n) == Real::spec_of(INFINITE) || exists|k: int|
            0 <= k < n && #[trigger] times[k] == shortest(times, n),
    decreases n,
{
    if n > 0 {
        lemma_shortest_is_one(times, n - 1);
        assert(times[n - 1] == times[n - 1]);
        if shortest(times, n) != times[n - 1] && shortest(times, n - 1) != Real::spec_of(
            INFINITE,
        ) {
            let k = choose|k: int|
                0 <= k < n - 1 && #[trigger] times[k] == shortest(times, n - 1);
            assert(times[k] == shortest(times, n));
        }
    }
}

/// A burn lasts as long as the engine that runs dry first, above zero and never for ever; it
/// does not take place where there is no engine, or one of them has nothing to burn.
pub proof fn law_burn_lasts_until_the_first_is_dry(times: &Vec<Real>, r: Option<Real>, i: int)
    requires
        call_ensures(burn_duration, (times,), r),
        forall|k: int| 0 <= k < times@.len() ==> (#[trigger] times@[k]).spec_is_finite(),
        0 <= i < times@.len(),
    ensures
        r is Some ==> times@.contains(r->0) && r->0.value() <= times@[i].value() && r->0.value() > 0,
        r is None <==> exists|k: int| 0 <= k < times@.len() && (#[trigger] times@[k]).value() <= 0,
{
    let n = times@.len() as int;
    let least = shortest(times@, n);
    lemma_shortest_is_one(times@, n);
    law_burn_ends_with_the_first(times@, n, i);
    law_no_number_compares(least, times@[i]);
    assert(least != Real::spec_of(INFINITE));
    let k = choose|k: int| 0 <= k < n && #[trigger] times@[k] == least;
    law_order_is_numeric(least, times@[i]);
    law_whole_numbers_compare(0, least);
    assert forall|k: int| 0 <= k < n implies least.value() <= (#[trigger] times@[k]).value() by {
        law_burn_ends_with_the_first(times@, n, k);
        law_order_is_numeric(least, times@[k]);
    }
    assert(times@[k].value() == least.value());
}

/// Without engines there is no burn.
pub proof fn law_no_engine_no_burn(times: &Vec<Real>, r: Option<Real>)
    requires
        call_ensures(burn_duration, (times,), r),
        times@.len() == 0,
    ensures
        r is None,
{
}

} // verus!
