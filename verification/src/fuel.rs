//! Propellant: which tanks feed which engines, and what a burn takes from them.
use crate::craft::lemma_filter_step;
use crate::lineage::{
    feed_edge, feed_group, is_open, law_network_hangs_together, law_network_is_open,
    law_network_spreads, lemma_reaches_self, network, Node,
};
use crate::number::{
    law_integer_has_its_value, law_larger_and_smaller, law_whole_numbers_compare, Real,
};
use crate::parts::{DefinitionView, PartCatalog, PartModule};
use crate::vessel::{RuntimePart, Vessel};
use std::collections::BTreeSet;
use vstd::prelude::*;

verus! {

/// The module of the part, if its kind is known.
pub open spec fn module_of(
    part: RuntimePart,
    catalog: Map<Seq<char>, DefinitionView>,
) -> Option<PartModule> {
    if catalog.contains_key(part.instance.definition_id@) {
        Some(catalog[part.instance.definition_id@].module)
    } else {
        None
    }
}

/// The module of the part, if its kind is known.
pub fn part_module(part: &RuntimePart, catalog: &PartCatalog) -> (r: Option<PartModule>)
    ensures
        r == module_of(*part, catalog@),
{
    match catalog.get(&part.instance.definition_id) {
        Some(definition) => Some(definition.module),
        None => None,
    }
}

/// Whether the module is a decoupler.
pub open spec fn is_decoupler(module: Option<PartModule>) -> bool {
    module is Some && (module->0 is InlineDecoupler || module->0 is RadialDecoupler)
}

/// Whether liquid propellant cannot pass through the part.
pub fn blocks_liquid_crossfeed(part: &RuntimePart, catalog: &PartCatalog) -> (r: bool)
    ensures
        r == is_decoupler(module_of(*part, catalog@)),
{
    matches!(
        part_module(part, catalog),
        Some(PartModule::InlineDecoupler { .. } | PartModule::RadialDecoupler { .. })
    )
}

/// A part in the propellant lines: open where propellant passes.
pub open spec fn fuel_node(part: RuntimePart, catalog: Map<Seq<char>, DefinitionView>) -> Node {
    Node {
        id: part.instance.instance_id,
        parent: part.instance.parent,
        open: !part.destroyed && !is_decoupler(module_of(part, catalog)),
    }
}

/// The propellant lines of the parts.
pub open spec fn fuel_nodes(
    parts: Seq<RuntimePart>,
    catalog: Map<Seq<char>, DefinitionView>,
) -> Seq<Node> {
    parts.map_values(|part: RuntimePart| fuel_node(part, catalog))
}

/// The parts that share liquid propellant with the part `start`: those reached
/// from it over attachments between parts that still fly and let propellant pass.
pub fn liquid_fuel_network(vessel: &Vessel, catalog: &PartCatalog, start: u64) -> (r: BTreeSet<u64>)
    ensures
        r@ == network(fuel_nodes(vessel.parts@, catalog@), start),
        r@.finite(),
{
    let mut nodes: Vec<Node> = Vec::new();
    for i in 0..vessel.parts.len()
        invariant
            nodes@ == fuel_nodes(vessel.parts@, catalog@).take(i as int),
    {
        let part = &vessel.parts[i];
        let open = !part.destroyed && !blocks_liquid_crossfeed(part, catalog);
        nodes.push(Node { id: part.instance.instance_id, parent: part.instance.parent, open });
        proof {
            assert(nodes@ =~= fuel_nodes(vessel.parts@, catalog@).take(i + 1));
        }
    }
    proof {
        assert(nodes@ =~= fuel_nodes(vessel.parts@, catalog@));
    }
    feed_group(&nodes, start)
}

/// Whether the part is a liquid propellant tank of the network that still flies.
pub open spec fn is_feeding_tank(
    part: RuntimePart,
    catalog: Map<Seq<char>, DefinitionView>,
    members: Set<u64>,
) -> bool {
    !part.destroyed && members.contains(part.instance.instance_id) && module_of(part, catalog)
        is Some && module_of(part, catalog)->0 is LiquidTank
}

/// Whether the part is a monopropellant tank that still flies.
pub open spec fn is_monopropellant_tank(
    part: RuntimePart,
    catalog: Map<Seq<char>, DefinitionView>,
) -> bool {
    !part.destroyed && module_of(part, catalog) is Some && module_of(part, catalog)->0
        is MonopropTank
}

/// The liquid propellant tanks of the network that still fly.
pub open spec fn feeding_tanks(
    catalog: Map<Seq<char>, DefinitionView>,
    members: Set<u64>,
) -> spec_fn(RuntimePart) -> bool {
    |part: RuntimePart| is_feeding_tank(part, catalog, members)
}

/// The monopropellant tanks that still fly.
pub open spec fn monopropellant_tanks(
    catalog: Map<Seq<char>, DefinitionView>,
) -> spec_fn(RuntimePart) -> bool {
    |part: RuntimePart| is_monopropellant_tank(part, catalog)
}

/// Whether the part is a solid engine that still flies.
pub open spec fn is_solid_engine(
    part: RuntimePart,
    catalog: Map<Seq<char>, DefinitionView>,
) -> bool {
    !part.destroyed && module_of(part, catalog) is Some && module_of(part, catalog)->0
        is SolidEngine
}

/// The propellant in the parts that are wanted, in the order of the parts.
pub open spec fn levels(
    parts: Seq<RuntimePart>,
    wanted: spec_fn(RuntimePart) -> bool,
) -> Seq<Real> {
    parts.filter(wanted).map_values(|part: RuntimePart| part.fuel)
}

/// The propellant in the tanks of the network.
pub open spec fn feeding_levels(
    parts: Seq<RuntimePart>,
    catalog: Map<Seq<char>, DefinitionView>,
    members: Set<u64>,
) -> Seq<Real> {
    levels(parts, feeding_tanks(catalog, members))
}

/// The propellant in the monopropellant tanks.
pub open spec fn monopropellant_levels(
    parts: Seq<RuntimePart>,
    catalog: Map<Seq<char>, DefinitionView>,
) -> Seq<Real> {
    levels(parts, monopropellant_tanks(catalog))
}

proof fn lemma_levels_step(
    parts: Seq<RuntimePart>,
    wanted: spec_fn(RuntimePart) -> bool,
    i: int,
)
    requires
        0 <= i < parts.len(),
    ensures
        levels(parts.take(i + 1), wanted) == (if wanted(parts[i]) {
            levels(parts.take(i), wanted).push(parts[i].fuel)
        } else {
            levels(parts.take(i), wanted)
        }),
{
    lemma_filter_step(parts, wanted, i);
    if wanted(parts[i]) {
        assert(levels(parts.take(i + 1), wanted) =~= levels(parts.take(i), wanted).push(
            parts[i].fuel,
        ));
    }
}

fn feeds_network(part: &RuntimePart, catalog: &PartCatalog, members: &BTreeSet<u64>) -> (r: bool)
    ensures
        r == is_feeding_tank(*part, catalog@, members@),
{
    !part.destroyed && members.contains(&part.instance.instance_id) && matches!(
        part_module(part, catalog),
        Some(PartModule::LiquidTank { .. })
    )
}

fn holds_monopropellant(part: &RuntimePart, catalog: &PartCatalog) -> (r: bool)
    ensures
        r == is_monopropellant_tank(*part, catalog@),
{
    !part.destroyed && matches!(
        part_module(part, catalog),
        Some(PartModule::MonopropTank { .. })
    )
}

/// The propellant in each tank of the network.
pub fn liquid_fuel_available(
    vessel: &Vessel,
    catalog: &PartCatalog,
    members: &BTreeSet<u64>,
) -> (r: Vec<Real>)
    ensures
        r@ == feeding_levels(vessel.parts@, catalog@, members@),
{
    let ghost wanted = feeding_tanks(catalog@, members@);
    let mut r: Vec<Real> = Vec::new();
    for i in 0..vessel.parts.len()
        invariant
            wanted == feeding_tanks(catalog@, members@),
            r@ == levels(vessel.parts@.take(i as int), wanted),
    {
        proof {
            lemma_levels_step(vessel.parts@, wanted, i as int);
        }
        if feeds_network(&vessel.parts[i], catalog, members) {
            r.push(vessel.parts[i].fuel);
        }
    }
    proof {
        assert(vessel.parts@.take(vessel.parts@.len() as int) =~= vessel.parts@);
    }
    r
}

/// The propellant in each monopropellant tank.
pub fn monopropellant_available(vessel: &Vessel, catalog: &PartCatalog) -> (r: Vec<Real>)
    ensures
        r@ == monopropellant_levels(vessel.parts@, catalog@),
{
    let ghost wanted = monopropellant_tanks(catalog@);
    let mut r: Vec<Real> = Vec::new();
    for i in 0..vessel.parts.len()
        invariant
            wanted == monopropellant_tanks(catalog@),
            r@ == levels(vessel.parts@.take(i as int), wanted),
    {
        proof {
            lemma_levels_step(vessel.parts@, wanted, i as int);
        }
        if holds_monopropellant(&vessel.parts[i], catalog) {
            r.push(vessel.parts[i].fuel);
        }
    }
    proof {
        assert(vessel.parts@.take(vessel.parts@.len() as int) =~= vessel.parts@);
    }
    r
}

/// Whether `after` is `before` with its propellant lowered to what `rest` leaves
/// of it, or to nothing where that is negative.
pub open spec fn is_drained<F: Fn(Real, Real, Real) -> Real>(
    before: RuntimePart,
    after: RuntimePart,
    taken: Real,
    available: Real,
    rest: F,
) -> bool {
    exists|left: Real| #[trigger]
        call_ensures(rest, (before.fuel, taken, available), left) && after == (RuntimePart {
            fuel: left.spec_larger(Real::spec_of(0)),
            ..before
        })
}

/// Whether `after` are the parts `before` with the wanted ones drained.
pub open spec fn are_drained<F: Fn(Real, Real, Real) -> Real>(
    before: Seq<RuntimePart>,
    after: Seq<RuntimePart>,
    wanted: spec_fn(RuntimePart) -> bool,
    taken: Real,
    available: Real,
    rest: F,
) -> bool {
    &&& after.len() == before.len()
    &&& forall|i: int|
        0 <= i < before.len() ==> {
            if wanted(#[trigger] before[i]) {
                is_drained(before[i], after[i], taken, available, rest)
            } else {
                after[i] == before[i]
            }
        }
}

/// Whether `after` is the vessel `before` after a wish to take that amount out of the
/// wanted tanks, which hold those levels. All of it is taken, or all there is.
pub open spec fn is_drain<S: Fn(Vec<Real>) -> Real, F: Fn(Real, Real, Real) -> Real>(
    before: Vessel,
    after: Vessel,
    wanted: spec_fn(RuntimePart) -> bool,
    amount: Real,
    taken: Real,
    total: S,
    rest: F,
) -> bool {
    &&& after == (Vessel { parts: after.parts, ..before })
    &&& exists|held: Vec<Real>, available: Real| #[trigger]
        call_ensures(total, (held,), available) && held@ == levels(before.parts@, wanted)
            && if available.spec_at_most(Real::spec_of(0)) {
            taken == Real::spec_of(0) && after.parts@ == before.parts@
        } else {
            taken == available.spec_smaller(amount) && are_drained(
                before.parts@,
                after.parts@,
                wanted,
                taken,
                available,
                rest,
            )
        }
}

/// Lowers the propellant of the chosen parts to what `rest` leaves.
fn drain_parts<F: Fn(Real, Real, Real) -> Real>(
    parts: &mut Vec<RuntimePart>,
    chosen: &Vec<bool>,
    taken: Real,
    available: Real,
    rest: F,
    Ghost(wanted): Ghost<spec_fn(RuntimePart) -> bool>,
)
    requires
        forall|a: Real, b: Real, c: Real| call_requires(rest, (a, b, c)),
        chosen.len() == old(parts).len(),
        forall|i: int| 0 <= i < chosen.len() ==> #[trigger] chosen@[i] == wanted(old(parts)@[i]),
    ensures
        are_drained(old(parts)@, final(parts)@, wanted, taken, available, rest),
{
    let ghost before = parts@;
    for i in 0..chosen.len()
        invariant
            forall|a: Real, b: Real, c: Real| call_requires(rest, (a, b, c)),
            chosen.len() == before.len(),
            parts.len() == before.len(),
            forall|k: int| 0 <= k < chosen.len() ==> #[trigger] chosen@[k] == wanted(before[k]),
            forall|k: int| i <= k < before.len() ==> parts@[k] == #[trigger] before[k],
            forall|k: int|
                0 <= k < i ==> {
                    if wanted(#[trigger] before[k]) {
                        is_drained(before[k], parts@[k], taken, available, rest)
                    } else {
                        parts@[k] == before[k]
                    }
                },
    {
        proof {
            assert(parts@[i as int] == before[i as int]);
            assert(chosen@[i as int] == wanted(before[i as int]));
        }
        if chosen[i] {
            let left = rest(parts[i].fuel, taken, available);
            parts[i].fuel = left.larger(Real::zero());
            proof {
                assert(is_drained(before[i as int], parts@[i as int], taken, available, rest));
            }
        }
    }
}

/// Takes propellant from the tanks of the network, from each in proportion to
/// what it holds. Gives what was taken: what was asked for, or all there is.
/// `total` adds the levels up; `rest` says what is left of a level.
pub fn drain_liquid_fuel_network<S: Fn(Vec<Real>) -> Real, F: Fn(Real, Real, Real) -> Real>(
    vessel: &mut Vessel,
    catalog: &PartCatalog,
    members: &BTreeSet<u64>,
    amount: Real,
    total: S,
    rest: F,
) -> (taken: Real)
    requires
        forall|held: Vec<Real>| call_requires(total, (held,)),
        forall|a: Real, b: Real, c: Real| call_requires(rest, (a, b, c)),
    ensures
        is_drain(
            *old(vessel),
            *final(vessel),
            feeding_tanks(catalog@, members@),
            amount,
            taken,
            total,
            rest,
        ),
{
    let held = liquid_fuel_available(vessel, catalog, members);
    let ghost counted = held;
    let available = total(held);
    proof {
        assert(call_ensures(total, (counted,), available));
    }
    let taken = available.smaller(amount);
    if available.is_at_most(Real::zero()) {
        return Real::zero();
    }
    let ghost wanted = feeding_tanks(catalog@, members@);
    let mut chosen: Vec<bool> = Vec::new();
    for i in 0..vessel.parts.len()
        invariant
            *vessel == *old(vessel),
            wanted == feeding_tanks(catalog@, members@),
            chosen.len() == i,
            forall|k: int| 0 <= k < i ==> #[trigger] chosen@[k] == wanted(vessel.parts@[k]),
    {
        chosen.push(feeds_network(&vessel.parts[i], catalog, members));
    }
    drain_parts(&mut vessel.parts, &chosen, taken, available, rest, Ghost(wanted));
    taken
}

/// Takes monopropellant from all its tanks, from each in proportion to what it
/// holds. Gives what was taken: what was asked for, or all there is.
/// `total` adds the levels up; `rest` says what is left of a level.
pub fn drain_monopropellant<S: Fn(Vec<Real>) -> Real, F: Fn(Real, Real, Real) -> Real>(
    vessel: &mut Vessel,
    catalog: &PartCatalog,
    amount: Real,
    total: S,
    rest: F,
) -> (taken: Real)
    requires
        forall|held: Vec<Real>| call_requires(total, (held,)),
        forall|a: Real, b: Real, c: Real| call_requires(rest, (a, b, c)),
    ensures
        is_drain(
            *old(vessel),
            *final(vessel),
            monopropellant_tanks(catalog@),
            amount,
            taken,
            total,
            rest,
        ),
{
    let held = monopropellant_available(vessel, catalog);
    let ghost counted = held;
    let available = total(held);
    proof {
        assert(call_ensures(total, (counted,), available));
    }
    let taken = available.smaller(amount);
    if available.is_at_most(Real::zero()) {
        return Real::zero();
    }
    let ghost wanted = monopropellant_tanks(catalog@);
    let mut chosen: Vec<bool> = Vec::new();
    for i in 0..vessel.parts.len()
        invariant
            *vessel == *old(vessel),
            wanted == monopropellant_tanks(catalog@),
            chosen.len() == i,
            forall|k: int| 0 <= k < i ==> #[trigger] chosen@[k] == wanted(vessel.parts@[k]),
    {
        chosen.push(holds_monopropellant(&vessel.parts[i], catalog));
    }
    drain_parts(&mut vessel.parts, &chosen, taken, available, rest, Ghost(wanted));
    taken
}

/// Whether the part is a liquid propellant tank that still flies.
pub open spec fn is_liquid_tank(part: RuntimePart, catalog: Map<Seq<char>, DefinitionView>) -> bool {
    !part.destroyed && module_of(part, catalog) is Some && module_of(part, catalog)->0 is LiquidTank
}

/// The propellant in every liquid tank.
pub fn liquid_levels(vessel: &Vessel, catalog: &PartCatalog) -> (r: Vec<Real>)
    ensures
        r@ == levels(vessel.parts@, |part: RuntimePart| is_liquid_tank(part, catalog@)),
{
    let ghost wanted = |part: RuntimePart| is_liquid_tank(part, catalog@);
    let mut r: Vec<Real> = Vec::new();
    for i in 0..vessel.parts.len()
        invariant
            wanted == (|part: RuntimePart| is_liquid_tank(part, catalog@)),
            r@ == levels(vessel.parts@.take(i as int), wanted),
    {
        proof {
            lemma_levels_step(vessel.parts@, wanted, i as int);
        }
        if !vessel.parts[i].destroyed && matches!(
            part_module(&vessel.parts[i], catalog),
            Some(PartModule::LiquidTank { .. })
        ) {
            r.push(vessel.parts[i].fuel);
        }
    }
    proof {
        assert(vessel.parts@.take(vessel.parts@.len() as int) =~= vessel.parts@);
    }
    r
}

/// The propellant in every solid engine.
pub fn solid_levels(vessel: &Vessel, catalog: &PartCatalog) -> (r: Vec<Real>)
    ensures
        r@ == levels(vessel.parts@, |part: RuntimePart| is_solid_engine(part, catalog@)),
{
    let ghost wanted = |part: RuntimePart| is_solid_engine(part, catalog@);
    let mut r: Vec<Real> = Vec::new();
    for i in 0..vessel.parts.len()
        invariant
            wanted == (|part: RuntimePart| is_solid_engine(part, catalog@)),
            r@ == levels(vessel.parts@.take(i as int), wanted),
    {
        proof {
            lemma_levels_step(vessel.parts@, wanted, i as int);
        }
        if !vessel.parts[i].destroyed && matches!(
            part_module(&vessel.parts[i], catalog),
            Some(PartModule::SolidEngine { .. })
        ) {
            r.push(vessel.parts[i].fuel);
        }
    }
    proof {
        assert(vessel.parts@.take(vessel.parts@.len() as int) =~= vessel.parts@);
    }
    r
}

/// Whether `sum` is what `total` makes of the levels.
pub open spec fn is_total<S: Fn(Vec<Real>) -> Real>(
    counted: Seq<Real>,
    total: S,
    sum: Real,
) -> bool {
    exists|held: Vec<Real>| #[trigger] call_ensures(total, (held,), sum) && held@ == counted
}

/// The liquid, solid and monopropellant aboard. `total` adds levels up.
pub fn resource_totals<S: Fn(Vec<Real>) -> Real>(
    vessel: &Vessel,
    catalog: &PartCatalog,
    total: S,
) -> (r: (Real, Real, Real))
    requires
        forall|held: Vec<Real>| call_requires(total, (held,)),
    ensures
        is_total(
            levels(vessel.parts@, |part: RuntimePart| is_liquid_tank(part, catalog@)),
            total,
            r.0,
        ),
        is_total(
            levels(vessel.parts@, |part: RuntimePart| is_solid_engine(part, catalog@)),
            total,
            r.1,
        ),
        is_total(monopropellant_levels(vessel.parts@, catalog@), total, r.2),
{
    let liquid = liquid_levels(vessel, catalog);
    let solid = solid_levels(vessel, catalog);
    let mono = monopropellant_available(vessel, catalog);
    let ghost (a, b, c) = (liquid, solid, mono);
    let r = (total(liquid), total(solid), total(mono));
    proof {
        assert(call_ensures(total, (a,), r.0));
        assert(call_ensures(total, (b,), r.1));
        assert(call_ensures(total, (c,), r.2));
    }
    r
}

/// A drain takes no more than was asked for nor than there is, and leaves no tank
/// below empty.
pub proof fn law_drain_is_bounded<F: Fn(Real, Real, Real) -> Real>(
    before: Seq<RuntimePart>,
    after: Seq<RuntimePart>,
    wanted: spec_fn(RuntimePart) -> bool,
    amount: Real,
    available: Real,
    rest: F,
    i: int,
)
    requires
        !amount.spec_is_nan(),
        !available.spec_is_nan(),
        are_drained(before, after, wanted, available.spec_smaller(amount), available, rest),
        0 <= i < before.len(),
    ensures
        available.spec_smaller(amount).spec_at_most(amount),
        available.spec_smaller(amount).spec_at_most(available),
        wanted(before[i]) ==> Real::spec_of(0).spec_at_most(after[i].fuel),
        !wanted(before[i]) ==> after[i] == before[i],
        after[i].instance == before[i].instance && after[i].destroyed == before[i].destroyed,
{
    if wanted(before[i]) {
        assert(is_drained(
            before[i],
            after[i],
            available.spec_smaller(amount),
            available,
            rest,
        ));
    }
}

/// What a part is, is what the catalog says of its kind; of a kind that the catalog does not
/// know nothing is said. Decouplers of both sorts keep propellant from passing, and nothing
/// else does.
pub proof fn law_part_is_of_its_kind(
    part: &RuntimePart,
    catalog: &PartCatalog,
    module: Option<PartModule>,
    blocks: bool,
)
    requires
        call_ensures(part_module, (part, catalog), module),
        call_ensures(blocks_liquid_crossfeed, (part, catalog), blocks),
    ensures
        catalog@.contains_key(part.instance.definition_id@) ==> module == Some(
            catalog@[part.instance.definition_id@].module,
        ),
        !catalog@.contains_key(part.instance.definition_id@) ==> module is None,
        blocks <==> catalog@.contains_key(part.instance.definition_id@) && (
        catalog@[part.instance.definition_id@].module is InlineDecoupler
            || catalog@[part.instance.definition_id@].module is RadialDecoupler),
{
}

/// Whether propellant passes through the part: it flies and is no decoupler.
pub open spec fn lets_through(
    part: RuntimePart,
    catalog: Map<Seq<char>, DefinitionView>,
) -> bool {
    !part.destroyed && (catalog.contains_key(part.instance.definition_id@) ==> !(
    catalog[part.instance.definition_id@].module is InlineDecoupler)
        && !(catalog[part.instance.definition_id@].module is RadialDecoupler))
}

/// Propellant reaches exactly the flying parts that hang together without a decoupler between
/// them: none that does not let it through, the start where that does, and with a part what
/// it hangs on and what hangs on it.
pub proof fn law_propellant_stays_between_decouplers(
    vessel: &Vessel,
    catalog: &PartCatalog,
    start: u64,
    r: BTreeSet<u64>,
    i: int,
    j: int,
    id: u64,
)
    requires
        call_ensures(liquid_fuel_network, (vessel, catalog, start), r),
        0 <= i < vessel.parts@.len(),
        0 <= j < vessel.parts@.len(),
    ensures
        r@.contains(id) ==> exists|k: int|
            0 <= k < vessel.parts@.len() && (#[trigger] vessel.parts@[k]).instance.instance_id
                == id && lets_through(vessel.parts@[k], catalog@),
        lets_through(vessel.parts@[i], catalog@) && vessel.parts@[i].instance.instance_id == start
            ==> r@.contains(start),
        lets_through(vessel.parts@[i], catalog@) && lets_through(vessel.parts@[j], catalog@)
            && vessel.parts@[j].instance.parent == Some(vessel.parts@[i].instance.instance_id)
            ==> r@.contains(vessel.parts@[i].instance.instance_id) == r@.contains(
            vessel.parts@[j].instance.instance_id,
        ),
        r@.contains(id) && id != start ==> exists|k: int|
            {
                &&& 0 <= k < vessel.parts@.len()
                &&& (#[trigger] vessel.parts@[k]).instance.instance_id == id
                &&& vessel.parts@[k].instance.parent is Some && r@.contains(
                    vessel.parts@[k].instance.parent->0,
                ) || exists|l: int|
                    0 <= l < vessel.parts@.len() && (
                    #[trigger] vessel.parts@[l]).instance.parent == Some(id) && r@.contains(
                        vessel.parts@[l].instance.instance_id,
                    )
            },
{
    let parts = vessel.parts@;
    let nodes = fuel_nodes(parts, catalog@);
    assert forall|k: int| 0 <= k < parts.len() implies (#[trigger] nodes[k]).open
        == lets_through(parts[k], catalog@) && nodes[k].id == parts[k].instance.instance_id
        && nodes[k].parent == parts[k].instance.parent by {}
    if r@.contains(id) {
        law_network_is_open(nodes, start, id);
        let k = choose|k: int|
            0 <= k < nodes.len() && (#[trigger] nodes[k]).id == id && nodes[k].open;
        assert(parts[k].instance.instance_id == id);
        if id != start {
            law_network_hangs_together(nodes, start, id);
            let k = choose|i: int|
                {
                    &&& 0 <= i < nodes.len() && (#[trigger] nodes[i]).id == id && nodes[i].open
                    &&& nodes[i].parent is Some && network(nodes, start).contains(
                        nodes[i].parent->0,
                    ) || exists|j: int|
                        0 <= j < nodes.len() && (#[trigger] nodes[j]).parent == Some(id) && network(
                            nodes,
                            start,
                        ).contains(nodes[j].id)
                };
            assert(parts[k].instance.instance_id == id);
            if !(nodes[k].parent is Some && network(nodes, start).contains(nodes[k].parent->0)) {
                let l = choose|j: int|
                    0 <= j < nodes.len() && (#[trigger] nodes[j]).parent == Some(id) && network(
                        nodes,
                        start,
                    ).contains(nodes[j].id);
                assert(parts[l].instance.parent == Some(id));
            }
        }
    }
    if nodes[i].open && nodes[j].open && nodes[j].parent == Some(nodes[i].id) {
        law_network_spreads(nodes, start, i, j);
    }
    if nodes[i].open && nodes[i].id == start {
        assert(is_open(nodes, start));
        lemma_reaches_self(feed_edge(nodes), start);
    }
}

proof fn lemma_levels_push(
    parts: Seq<RuntimePart>,
    part: RuntimePart,
    wanted: spec_fn(RuntimePart) -> bool,
)
    ensures
        levels(parts.push(part), wanted) == if wanted(part) {
            levels(parts, wanted).push(part.fuel)
        } else {
            levels(parts, wanted)
        },
        levels(Seq::empty(), wanted) == Seq::<Real>::empty(),
{
    let longer = parts.push(part);
    lemma_filter_step(longer, wanted, parts.len() as int);
    assert(longer.take(parts.len() as int) =~= parts);
    assert(longer.take(parts.len() as int + 1) =~= longer);
    assert(levels(longer, wanted) =~= if wanted(part) {
        levels(parts, wanted).push(part.fuel)
    } else {
        levels(parts, wanted)
    });
    reveal(Seq::filter);
    assert(levels(Seq::empty(), wanted) =~= Seq::<Real>::empty());
}

/// Each gauge counts the fuel of the parts that it is for and of no other: with one more part
/// on the vessel it shows one more level where that part flies and is of the sort, and else
/// the same. Liquid tanks count for an engine only in its network.
pub proof fn law_gauges_count_their_parts(
    vessel: &Vessel,
    longer: &Vessel,
    part: RuntimePart,
    catalog: &PartCatalog,
    members: &BTreeSet<u64>,
    feeding: (Vec<Real>, Vec<Real>),
    mono: (Vec<Real>, Vec<Real>),
    liquid: (Vec<Real>, Vec<Real>),
    solid: (Vec<Real>, Vec<Real>),
)
    requires
        longer.parts@ == vessel.parts@.push(part),
        call_ensures(liquid_fuel_available, (vessel, catalog, members), feeding.0),
        call_ensures(liquid_fuel_available, (longer, catalog, members), feeding.1),
        call_ensures(monopropellant_available, (vessel, catalog), mono.0),
        call_ensures(monopropellant_available, (longer, catalog), mono.1),
        call_ensures(liquid_levels, (vessel, catalog), liquid.0),
        call_ensures(liquid_levels, (longer, catalog), liquid.1),
        call_ensures(solid_levels, (vessel, catalog), solid.0),
        call_ensures(solid_levels, (longer, catalog), solid.1),
    ensures
        ({
            let known = !part.destroyed && catalog@.contains_key(part.instance.definition_id@);
            let module = catalog@[part.instance.definition_id@].module;
            let tank = known && module is LiquidTank;
            let feeds = tank && members@.contains(part.instance.instance_id);
            &&& feeding.1@ == if feeds {
                feeding.0@.push(part.fuel)
            } else {
                feeding.0@
            }
            &&& liquid.1@ == if tank {
                liquid.0@.push(part.fuel)
            } else {
                liquid.0@
            }
            &&& mono.1@ == if known && module is MonopropTank {
                mono.0@.push(part.fuel)
            } else {
                mono.0@
            }
            &&& solid.1@ == if known && module is SolidEngine {
                solid.0@.push(part.fuel)
            } else {
                solid.0@
            }
        }),
        vessel.parts@.len() == 0 ==> feeding.0@.len() == 0 && liquid.0@.len() == 0
            && mono.0@.len() == 0 && solid.0@.len() == 0,
{
    let parts = vessel.parts@;
    lemma_levels_push(parts, part, feeding_tanks(catalog@, members@));
    lemma_levels_push(parts, part, monopropellant_tanks(catalog@));
    lemma_levels_push(parts, part, |part: RuntimePart| is_liquid_tank(part, catalog@));
    lemma_levels_push(parts, part, |part: RuntimePart| is_solid_engine(part, catalog@));
    if parts.len() == 0 {
        assert(parts =~= Seq::empty());
    }
}

/// What was asked for is taken from the tanks of the network and from nothing else: every
/// other part keeps all it has, a tank of the network loses fuel alone, and by the share that
/// the level, the amount taken and the stock give. Nothing is taken of an empty stock, and
/// never more than was asked for or is there.
pub proof fn law_drain_takes_from_the_network<
    S: Fn(Vec<Real>) -> Real,
    F: Fn(Real, Real, Real) -> Real,
>(
    vessel: &mut Vessel,
    catalog: &PartCatalog,
    members: &BTreeSet<u64>,
    amount: Real,
    total: S,
    rest: F,
    taken: Real,
    gauge: Vec<Real>,
    i: int,
)
    requires
        call_ensures(
            drain_liquid_fuel_network::<S, F>,
            (vessel, catalog, members, amount, total, rest),
            taken,
        ),
        call_ensures(liquid_fuel_available, (&*old(vessel), catalog, members), gauge),
        0 <= i < old(vessel).parts@.len(),
        amount.spec_is_finite(),
        forall|held: Vec<Real>, sum: Real| #[trigger]
            call_ensures(total, (held,), sum) ==> sum.spec_is_finite(),
    ensures
        *final(vessel) == (Vessel { parts: final(vessel).parts, ..*old(vessel) }),
        final(vessel).parts@.len() == old(vessel).parts@.len(),
        ({
            let before = old(vessel).parts@[i];
            let after = final(vessel).parts@[i];
            &&& after.instance == before.instance && after.ablator == before.ablator
                && after.temperature == before.temperature && after.active == before.active
                && after.destroyed == before.destroyed && after.parachute_deployed
                == before.parachute_deployed
            &&& before.destroyed || !members@.contains(before.instance.instance_id)
                || !catalog@.contains_key(before.instance.definition_id@) || !(
            catalog@[before.instance.definition_id@].module is LiquidTank) ==> after.fuel
                == before.fuel
        }),
        exists|held: Vec<Real>, available: Real| #[trigger]
            call_ensures(total, (held,), available) && held@ == gauge@ && {
                let before = old(vessel).parts@[i];
                let after = final(vessel).parts@[i];
                &&& available.value() <= 0 ==> taken.bits == 0 && after == before
                &&& available.value() > 0 ==> (taken == available || taken == amount)
                    && taken.value() <= available.value() && taken.value() <= amount.value()
                &&& available.value() > 0 && !before.destroyed && members@.contains(
                    before.instance.instance_id,
                ) && catalog@.contains_key(before.instance.definition_id@)
                    && catalog@[before.instance.definition_id@].module is LiquidTank ==> exists|
                    left: Real,
                | #[trigger]
                    call_ensures(rest, (before.fuel, taken, available), left) && (
                    left.spec_is_finite() && left.value() > 0 ==> after.fuel == left) && (
                    left.spec_is_finite() && left.value() <= 0 ==> after.fuel.value() == 0)
            },
{
    let wanted = feeding_tanks(catalog@, members@);
    lemma_drain_of(*vessel, *final(vessel), wanted, amount, taken, total, rest, i);
}

/// A burn of the thrusters draws on every flying tank of their propellant, wherever it
/// stands, and on nothing else.
pub proof fn law_thrusters_draw_on_every_tank<
    S: Fn(Vec<Real>) -> Real,
    F: Fn(Real, Real, Real) -> Real,
>(
    vessel: &mut Vessel,
    catalog: &PartCatalog,
    amount: Real,
    total: S,
    rest: F,
    taken: Real,
    gauge: Vec<Real>,
    i: int,
)
    requires
        call_ensures(
            drain_monopropellant::<S, F>,
            (vessel, catalog, amount, total, rest),
            taken,
        ),
        call_ensures(monopropellant_available, (&*old(vessel), catalog), gauge),
        0 <= i < old(vessel).parts@.len(),
        amount.spec_is_finite(),
        forall|held: Vec<Real>, sum: Real| #[trigger]
            call_ensures(total, (held,), sum) ==> sum.spec_is_finite(),
    ensures
        *final(vessel) == (Vessel { parts: final(vessel).parts, ..*old(vessel) }),
        final(vessel).parts@.len() == old(vessel).parts@.len(),
        ({
            let before = old(vessel).parts@[i];
            let after = final(vessel).parts@[i];
            &&& after.instance == before.instance && after.ablator == before.ablator
                && after.temperature == before.temperature && after.active == before.active
                && after.destroyed == before.destroyed && after.parachute_deployed
                == before.parachute_deployed
            &&& before.destroyed || !catalog@.contains_key(before.instance.definition_id@) || !(
            catalog@[before.instance.definition_id@].module is MonopropTank) ==> after.fuel
                == before.fuel
        }),
        exists|held: Vec<Real>, available: Real| #[trigger]
            call_ensures(total, (held,), available) && held@ == gauge@ && {
                let before = old(vessel).parts@[i];
                let after = final(vessel).parts@[i];
                &&& available.value() <= 0 ==> taken.bits == 0 && after == before
                &&& available.value() > 0 ==> (taken == available || taken == amount)
                    && taken.value() <= available.value() && taken.value() <= amount.value()
                &&& available.value() > 0 && !before.destroyed && catalog@.contains_key(
                    before.instance.definition_id@,
                ) && catalog@[before.instance.definition_id@].module is MonopropTank ==> exists|
                    left: Real,
                | #[trigger]
                    call_ensures(rest, (before.fuel, taken, available), left) && (
                    left.spec_is_finite() && left.value() > 0 ==> after.fuel == left) && (
                    left.spec_is_finite() && left.value() <= 0 ==> after.fuel.value() == 0)
            },
{
    let wanted = monopropellant_tanks(catalog@);
    lemma_drain_of(*vessel, *final(vessel), wanted, amount, taken, total, rest, i);
}

pub proof fn lemma_drain_of<S: Fn(Vec<Real>) -> Real, F: Fn(Real, Real, Real) -> Real>(
    start: Vessel,
    end: Vessel,
    wanted: spec_fn(RuntimePart) -> bool,
    amount: Real,
    taken: Real,
    total: S,
    rest: F,
    i: int,
)
    requires
        is_drain(start, end, wanted, amount, taken, total, rest),
        0 <= i < start.parts@.len(),
        amount.spec_is_finite(),
        forall|held: Vec<Real>, sum: Real| #[trigger]
            call_ensures(total, (held,), sum) ==> sum.spec_is_finite(),
    ensures
        end == (Vessel { parts: end.parts, ..start }),
        end.parts@.len() == start.parts@.len(),
        !wanted(start.parts@[i]) ==> end.parts@[i] == start.parts@[i],
        end.parts@[i] == (RuntimePart { fuel: end.parts@[i].fuel, ..start.parts@[i] }),
        exists|held: Vec<Real>, available: Real| #[trigger]
            call_ensures(total, (held,), available) && held@ == levels(start.parts@, wanted) && {
                let before = start.parts@[i];
                let after = end.parts@[i];
                &&& available.value() <= 0 ==> taken.bits == 0 && after == before
                &&& available.value() > 0 ==> (taken == available || taken == amount)
                    && taken.value() <= available.value() && taken.value() <= amount.value()
                &&& available.value() > 0 && wanted(before) ==> exists|left: Real| #[trigger]
                    call_ensures(rest, (before.fuel, taken, available), left) && (
                    left.spec_is_finite() && left.value() > 0 ==> after.fuel == left) && (
                    left.spec_is_finite() && left.value() <= 0 ==> after.fuel.value() == 0)
            },
{
    let before = start.parts@[i];
    let after = end.parts@[i];
    let (held, available) = choose|held: Vec<Real>, available: Real| #[trigger]
        call_ensures(total, (held,), available) && held@ == levels(start.parts@, wanted)
            && if available.spec_at_most(Real::spec_of(0)) {
            taken == Real::spec_of(0) && end.parts@ == start.parts@
        } else {
            taken == available.spec_smaller(amount) && are_drained(
                start.parts@,
                end.parts@,
                wanted,
                taken,
                available,
                rest,
            )
        };
    law_whole_numbers_compare(0, available);
    law_integer_has_its_value(0);
    law_larger_and_smaller(available, amount, amount);
    if available.value() > 0 && wanted(before) {
        assert(is_drained(before, after, taken, available, rest));
        let left = choose|left: Real| #[trigger]
            call_ensures(rest, (before.fuel, taken, available), left) && after == (RuntimePart {
                fuel: left.spec_larger(Real::spec_of(0)),
                ..before
            });
        if left.spec_is_finite() {
            law_larger_and_smaller(left, Real::spec_of(0), left);
        }
        assert(call_ensures(rest, (before.fuel, taken, available), left));
    }
    assert(call_ensures(total, (held,), available));
}

/// What the instruments show in all is the sum of what each gauge shows: liquid fuel first,
/// then solid, then the propellant of the thrusters.
pub proof fn law_totals_sum_the_gauges<S: Fn(Vec<Real>) -> Real>(
    vessel: &Vessel,
    catalog: &PartCatalog,
    total: S,
    r: (Real, Real, Real),
    liquid: Vec<Real>,
    solid: Vec<Real>,
    mono: Vec<Real>,
)
    requires
        call_ensures(resource_totals::<S>, (vessel, catalog, total), r),
        call_ensures(liquid_levels, (vessel, catalog), liquid),
        call_ensures(solid_levels, (vessel, catalog), solid),
        call_ensures(monopropellant_available, (vessel, catalog), mono),
    ensures
        exists|held: Vec<Real>| #[trigger]
            call_ensures(total, (held,), r.0) && held@ == liquid@,
        exists|held: Vec<Real>| #[trigger]
            call_ensures(total, (held,), r.1) && held@ == solid@,
        exists|held: Vec<Real>| #[trigger]
            call_ensures(total, (held,), r.2) && held@ == mono@,
{
}

} // verus!
