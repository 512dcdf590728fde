//! Part definitions and the catalog of stock parts.
use crate::text::{before, is_before, law_before_is_irreflexive, law_before_is_total, law_before_is_transitive, same_text};
use vstd::prelude::*;

verus! {

/// The drawer of the editor in which a part lies.
#[derive(Debug, Clone, Copy, PartialEq, Eq, Hash, Structural)]
pub enum PartCategory {
    Command,
    Propulsion,
    Fuel,
    Coupling,
    Control,
    Aero,
    Utility,
}

/// What a part does. Thrust is in newtons, specific impulse in seconds,
/// propellant and ablator in kilograms, torque in newton metres, impulse in
/// newton seconds, drag area in square metres and speed in metres per second.
#[derive(Debug, Clone, Copy, PartialEq, Eq, Structural)]
pub enum PartModule {
    Command { seats: u8, torque: u32 },
    LiquidEngine { thrust_vac: u32, thrust_sl: u32, isp_vac: u32, isp_sl: u32, gimbal_deg: u32 },
    SolidEngine { thrust: u32, isp: u32, fuel: u32 },
    LiquidTank { fuel: u32 },
    MonopropTank { fuel: u32 },
    InlineDecoupler { impulse: u32 },
    RadialDecoupler { impulse: u32 },
    ReactionWheel { torque: u32 },
    Rcs { thrust: u32, isp: u32 },
    Fin { lift: u32, steerable: bool },
    Parachute { drag_area: u32, safe_speed: u32 },
    HeatShield { ablator: u32 },
    LandingLeg,
    Structure,
}

/// A kind of part.
#[derive(Debug)]
pub struct PartDefinition {
    pub id: String,
    pub name: String,
    pub category: PartCategory,
    pub module: PartModule,
    /// Kilograms.
    pub dry_mass: u32,
    /// Hundredths of a metre.
    pub radius: u32,
    /// Hundredths of a metre.
    pub height: u32,
    /// Hundredths.
    pub drag_coefficient: u32,
    /// Kelvin.
    pub max_temperature: u32,
    pub description: String,
    pub radial: bool,
}

impl Clone for PartDefinition {
    fn clone(&self) -> (r: Self)
        ensures
            r == *self,
    {
        PartDefinition {
            id: self.id.clone(),
            name: self.name.clone(),
            category: self.category,
            module: self.module,
            dry_mass: self.dry_mass,
            radius: self.radius,
            height: self.height,
            drag_coefficient: self.drag_coefficient,
            max_temperature: self.max_temperature,
            description: self.description.clone(),
            radial: self.radial,
        }
    }
}

/// A part definition with its texts as sequences of characters.
pub struct DefinitionView {
    pub id: Seq<char>,
    pub name: Seq<char>,
    pub category: PartCategory,
    pub module: PartModule,
    pub dry_mass: u32,
    pub radius: u32,
    pub height: u32,
    pub drag_coefficient: u32,
    pub max_temperature: u32,
    pub description: Seq<char>,
    pub radial: bool,
}

impl View for PartDefinition {
    type V = DefinitionView;

    open spec fn view(&self) -> DefinitionView {
        DefinitionView {
            id: self.id@,
            name: self.name@,
            category: self.category,
            module: self.module,
            dry_mass: self.dry_mass,
            radius: self.radius,
            height: self.height,
            drag_coefficient: self.drag_coefficient,
            max_temperature: self.max_temperature,
            description: self.description@,
            radial: self.radial,
        }
    }
}

/// The known part definitions, by identifier.
#[derive(Debug)]
pub struct PartCatalog {
    definitions: Vec<PartDefinition>,
}

/// Whether the identifiers ascend.
pub open spec fn ascending(definitions: Seq<PartDefinition>) -> bool {
    forall|i: int, j: int|
        0 <= i < j < definitions.len() ==> before(
            #[trigger] definitions[i].id@,
            #[trigger] definitions[j].id@,
        )
}

/// Whether `id` is the identifier of one of the definitions.
pub open spec fn defines(definitions: Seq<PartDefinition>, id: Seq<char>) -> bool {
    exists|i: int| 0 <= i < definitions.len() && (#[trigger] definitions[i]).id@ == id
}

/// The definition with that identifier.
pub open spec fn definition(definitions: Seq<PartDefinition>, id: Seq<char>) -> PartDefinition {
    definitions[choose|i: int| 0 <= i < definitions.len() && (#[trigger] definitions[i]).id@ == id]
}

/// The definitions by identifier.
pub open spec fn by_id(definitions: Seq<PartDefinition>) -> Map<Seq<char>, DefinitionView> {
    Map::new(|id: Seq<char>| defines(definitions, id), |id: Seq<char>| definition(definitions, id)@)
}

impl View for PartCatalog {
    type V = Map<Seq<char>, DefinitionView>;

    closed spec fn view(&self) -> Map<Seq<char>, DefinitionView> {
        by_id(self.definitions@)
    }
}

impl PartCatalog {
    #[verifier::type_invariant]
    spec fn well_formed(self) -> bool {
        ascending(self.definitions@)
    }

    /// The definition of the part `id`, if there is one.
    pub open spec fn lookup(&self, id: Seq<char>) -> Option<DefinitionView> {
        if self@.contains_key(id) {
            Some(self@[id])
        } else {
            None
        }
    }

    /// The definition of the part `id`, if there is one.
    pub fn get(&self, id: &str) -> (r: Option<&PartDefinition>)
        ensures
            match r {
                Some(definition) => self.lookup(id@) == Some(definition@) && definition.id@ == id@,
                None => self.lookup(id@) is None,
            },
    {
        proof {
            use_type_invariant(self);
        }
        for i in 0..self.definitions.len()
            invariant
                ascending(self.definitions@),
                forall|k: int| 0 <= k < i ==> (#[trigger] self.definitions@[k]).id@ != id@,
        {
            if same_text(&self.definitions[i].id, id) {
                proof {
                    assert(defines(self.definitions@, id@));
                    lemma_one_definition(self.definitions@, i as int);
                }
                return Some(&self.definitions[i]);
            }
        }
        None
    }

    /// The definitions in the order of their identifiers.
    pub fn iter(&self) -> (r: &[PartDefinition])
        ensures
            ascending(r@),
            by_id(r@) == self@,
    {
        proof {
            use_type_invariant(self);
        }
        self.definitions.as_slice()
    }
}

/// Ascending definitions hold an identifier once.
proof fn lemma_one_definition(definitions: Seq<PartDefinition>, i: int)
    requires
        ascending(definitions),
        0 <= i < definitions.len(),
    ensures
        defines(definitions, definitions[i].id@),
        definition(definitions, definitions[i].id@) == definitions[i],
{
    let id = definitions[i].id@;
    assert(defines(definitions, id));
    let k = choose|k: int| 0 <= k < definitions.len() && (#[trigger] definitions[k]).id@ == id;
    law_before_is_irreflexive(id);
    if k < i {
        assert(before(definitions[k].id@, definitions[i].id@));
    } else if i < k {
        assert(before(definitions[i].id@, definitions[k].id@));
    }
}

impl PartDefinition {
    /// Whether the part has the shape of a box and not of a cylinder.
    pub open spec fn spec_is_boxed(&self) -> bool {
        self@.is_boxed()
    }

    /// Whether the part has the shape of a box and not of a cylinder: parts on
    /// the side of a stack, fins, legs and thrusters do.
    pub fn is_boxed(&self) -> (r: bool)
        ensures
            r == self.spec_is_boxed(),
    {
        self.radial || matches!(
            self.module,
            PartModule::Fin { .. } | PartModule::LandingLeg | PartModule::Rcs { .. }
        )
    }
}

impl DefinitionView {
    /// Whether the part has the shape of a box and not of a cylinder.
    pub open spec fn is_boxed(self) -> bool {
        self.radial || self.module is Fin || self.module is LandingLeg || self.module is Rcs
    }
}

/// The kilograms of propellant or ablator that a part holds when full.
pub open spec fn resource_capacity(module: PartModule) -> u32 {
    match module {
        PartModule::LiquidTank { fuel } => fuel,
        PartModule::MonopropTank { fuel } => fuel,
        PartModule::SolidEngine { thrust: _, isp: _, fuel } => fuel,
        PartModule::HeatShield { ablator } => ablator,
        _ => 0,
    }
}

/// The kilograms of propellant or ablator that a part holds when full.
pub fn part_resource_capacity(module: PartModule) -> (r: u32)
    ensures
        r == resource_capacity(module),
{
    match module {
        PartModule::LiquidTank { fuel } => fuel,
        PartModule::MonopropTank { fuel } => fuel,
        PartModule::SolidEngine { fuel, .. } => fuel,
        PartModule::HeatShield { ablator } => ablator,
        _ => 0,
    }
}

/// A definition out of its fields.
pub open spec fn entry(
    id: Seq<char>,
    name: Seq<char>,
    category: PartCategory,
    module: PartModule,
    dry_mass: u32,
    radius: u32,
    height: u32,
    drag_coefficient: u32,
    max_temperature: u32,
    radial: bool,
    description: Seq<char>,
) -> DefinitionView {
    DefinitionView {
        id,
        name,
        category,
        module,
        dry_mass,
        radius,
        height,
        drag_coefficient,
        max_temperature,
        description,
        radial,
    }
}

fn part(
    id: &str,
    name: &str,
    category: PartCategory,
    module: PartModule,
    dry_mass: u32,
    radius: u32,
    height: u32,
    drag_coefficient: u32,
    max_temperature: u32,
    radial: bool,
    description: &str,
) -> (r: PartDefinition)
    ensures
        r@ == entry(
            id@,
            name@,
            category,
            module,
            dry_mass,
            radius,
            height,
            drag_coefficient,
            max_temperature,
            radial,
            description@,
        ),
{
    PartDefinition {
        id: id.to_owned(),
        name: name.to_owned(),
        category,
        module,
        dry_mass,
        radius,
        height,
        drag_coefficient,
        max_temperature,
        description: description.to_owned(),
        radial,
    }
}

/// Puts a definition in its place, in place of one with the same identifier.
fn put(definitions: &mut Vec<PartDefinition>, added: PartDefinition)
    requires
        ascending(old(definitions)@),
    ensures
        ascending(final(definitions)@),
        by_id(final(definitions)@) == by_id(old(definitions)@).insert(added.id@, added@),
{
    let ghost prior = definitions@;
    let ghost id = added.id@;
    let ghost value = added;
    let mut at: usize = 0;
    while at < definitions.len() && is_before(&definitions[at].id, &added.id)
        invariant
            at <= definitions.len(),
            definitions@ == prior,
            forall|k: int| 0 <= k < at ==> before((#[trigger] prior[k]).id@, added.id@),
        decreases definitions.len() - at,
    {
        at = at + 1;
    }
    if at < definitions.len() && same_text(&definitions[at].id, &added.id) {
        definitions.set(at, added);
        proof {
            lemma_replaced(prior, at as int, value);
        }
    } else {
        proof {
            if at < prior.len() {
                law_before_is_total(prior[at as int].id@, id);
            }
        }
        definitions.insert(at, added);
        proof {
            lemma_inserted(prior, at as int, value);
        }
    }
}

/// What replacing a definition by one with the same identifier changes.
proof fn lemma_replaced(prior: Seq<PartDefinition>, at: int, added: PartDefinition)
    requires
        ascending(prior),
        0 <= at < prior.len(),
        prior[at].id@ == added.id@,
    ensures
        ascending(prior.update(at, added)),
        by_id(prior.update(at, added)) == by_id(prior).insert(added.id@, added@),
{
    let next = prior.update(at, added);
    assert(forall|k: int| 0 <= k < prior.len() ==> (#[trigger] next[k]).id@ == prior[k].id@);
    assert forall|i: int, j: int| 0 <= i < j < next.len() implies before(
        #[trigger] next[i].id@,
        #[trigger] next[j].id@,
    ) by {
        assert(before(prior[i].id@, prior[j].id@));
    }
    lemma_by_id(prior, next, at, added);
}

/// What inserting a definition at its place changes.
proof fn lemma_inserted(prior: Seq<PartDefinition>, at: int, added: PartDefinition)
    requires
        ascending(prior),
        0 <= at <= prior.len(),
        forall|k: int| 0 <= k < at ==> before((#[trigger] prior[k]).id@, added.id@),
        at < prior.len() ==> before(added.id@, prior[at].id@),
    ensures
        ascending(prior.insert(at, added)),
        by_id(prior.insert(at, added)) == by_id(prior).insert(added.id@, added@),
{
    let next = prior.insert(at, added);
    assert forall|k: int| at <= k < prior.len() implies before(
        added.id@,
        (#[trigger] prior[k]).id@,
    ) by {
        if k > at {
            assert(before(prior[at].id@, prior[k].id@));
            law_before_is_transitive(added.id@, prior[at].id@, prior[k].id@);
        }
    }
    assert forall|i: int, j: int| 0 <= i < j < next.len() implies before(
        #[trigger] next[i].id@,
        #[trigger] next[j].id@,
    ) by {
        let a = if i < at { i } else { i - 1 };
        let b = if j < at { j } else { j - 1 };
        if i != at {
            assert(next[i] == prior[a]);
        }
        if j != at {
            assert(next[j] == prior[b]);
        }
        if i != at && j != at {
            assert(before(prior[a].id@, prior[b].id@));
        }
    }
    lemma_by_id(prior, next, at, added);
}

/// Definitions that differ in one entry agree on every other identifier.
proof fn lemma_by_id(
    prior: Seq<PartDefinition>,
    next: Seq<PartDefinition>,
    at: int,
    added: PartDefinition,
)
    requires
        ascending(prior),
        ascending(next),
        0 <= at,
        (at < prior.len() && next == prior.update(at, added) && prior[at].id@ == added.id@) || (at
            <= prior.len() && next == prior.insert(at, added)),
    ensures
        by_id(next) == by_id(prior).insert(added.id@, added@),
{
    assert(next[at] == added);
    lemma_one_definition(next, at);
    assert forall|id: Seq<char>| id != added.id@ && #[trigger] defines(prior, id) implies defines(
        next,
        id,
    ) && definition(next, id) == definition(prior, id) by {
        let k = choose|k: int| 0 <= k < prior.len() && (#[trigger] prior[k]).id@ == id;
        let m = if next.len() == prior.len() || k < at { k } else { k + 1 };
        assert(next[m] == prior[k]);
        lemma_one_definition(next, m);
        lemma_one_definition(prior, k);
    }
    assert forall|id: Seq<char>| id != added.id@ && #[trigger] defines(next, id) implies defines(
        prior,
        id,
    ) by {
        let m = choose|m: int| 0 <= m < next.len() && (#[trigger] next[m]).id@ == id;
        let k = if next.len() == prior.len() || m < at { m } else { m - 1 };
        assert(prior[k] == next[m]);
    }
    assert(by_id(next) =~= by_id(prior).insert(added.id@, added@));
}

/// The stock parts, by identifier.
pub open spec fn stock_parts() -> Map<Seq<char>, DefinitionView> {
    Map::empty()
        .insert(
            "pod_1"@,
            entry(
                "pod_1"@, "Carapace Mk I"@, PartCategory::Command,
                PartModule::Command { seats: 1, torque: 8_000 },
                900, 115, 180, 28, 1_600, false,
                "A compact command pod for one intrepid crab."@,
            ),
        )
        .insert(
            "pod_2"@,
            entry(
                "pod_2"@, "Carapace Mk II"@, PartCategory::Command,
                PartModule::Command { seats: 2, torque: 12_000 },
                1_500, 145, 210, 30, 1_600, false,
                "A roomier pod with two acceleration couches and four cup holders."@,
            ),
        )
        .insert(
            "engine_sl_s"@,
            entry(
                "engine_sl_s"@, "Littoral L-20"@, PartCategory::Propulsion,
                PartModule::LiquidEngine { thrust_vac: 240_000, thrust_sl: 205_000, isp_vac: 320, isp_sl: 285, gimbal_deg: 5 },
                650, 85, 120, 35, 2_100, false,
                "A dependable gimballed launch engine."@,
            ),
        )
        .insert(
            "engine_sl_l"@,
            entry(
                "engine_sl_l"@, "Trench L-60"@, PartCategory::Propulsion,
                PartModule::LiquidEngine { thrust_vac: 720_000, thrust_sl: 630_000, isp_vac: 315, isp_sl: 280, gimbal_deg: 3 },
                1_450, 125, 170, 40, 2_200, false,
                "High thrust for heavy first stages."@,
            ),
        )
        .insert(
            "engine_vac"@,
            entry(
                "engine_vac"@, "Abyssal V-9"@, PartCategory::Propulsion,
                PartModule::LiquidEngine { thrust_vac: 110_000, thrust_sl: 55_000, isp_vac: 365, isp_sl: 190, gimbal_deg: 4 },
                360, 75, 115, 32, 2_050, false,
                "An efficient vacuum engine with a wide bell."@,
            ),
        )
        .insert(
            "solid_stack"@,
            entry(
                "solid_stack"@, "Barnacle S-12"@, PartCategory::Propulsion,
                PartModule::SolidEngine { thrust: 55_000, isp: 245, fuel: 1_700 },
                300, 75, 380, 42, 2_000, false,
                "A compact stack-mounted solid motor."@,
            ),
        )
        .insert(
            "solid_radial"@,
            entry(
                "solid_radial"@, "Breakwater S-30"@, PartCategory::Propulsion,
                PartModule::SolidEngine { thrust: 110_000, isp: 235, fuel: 3_300 },
                500, 85, 600, 46, 2_000, true,
                "A muscular radial booster. Once lit, it stays lit."@,
            ),
        )
        .insert(
            "tank_short"@,
            entry(
                "tank_short"@, "Tidepool Tank"@, PartCategory::Fuel,
                PartModule::LiquidTank { fuel: 2_400 },
                280, 100, 200, 30, 1_500, false,
                "A short liquid propellant tank."@,
            ),
        )
        .insert(
            "tank_long"@,
            entry(
                "tank_long"@, "Bluewater Tank"@, PartCategory::Fuel,
                PartModule::LiquidTank { fuel: 6_200 },
                620, 100, 420, 30, 1_500, false,
                "A long liquid propellant tank."@,
            ),
        )
        .insert(
            "mono_tank"@,
            entry(
                "mono_tank"@, "Current Monoprop Tank"@, PartCategory::Fuel,
                PartModule::MonopropTank { fuel: 220 },
                90, 70, 80, 30, 1_400, false,
                "Feeds RCS thrusters anywhere on the vessel."@,
            ),
        )
        .insert(
            "decoupler_s"@,
            entry(
                "decoupler_s"@, "Seam 1.25"@, PartCategory::Coupling,
                PartModule::InlineDecoupler { impulse: 1_500 },
                65, 100, 25, 35, 1_600, false,
                "An in-line stage separator."@,
            ),
        )
        .insert(
            "decoupler_l"@,
            entry(
                "decoupler_l"@, "Seam 2.5"@, PartCategory::Coupling,
                PartModule::InlineDecoupler { impulse: 2_500 },
                120, 130, 30, 35, 1_600, false,
                "A larger in-line stage separator."@,
            ),
        )
        .insert(
            "decoupler_radial"@,
            entry(
                "decoupler_radial"@, "Side-Shedder"@, PartCategory::Coupling,
                PartModule::RadialDecoupler { impulse: 2_000 },
                75, 25, 100, 40, 1_600, true,
                "Releases a radially attached booster with clearance impulse."@,
            ),
        )
        .insert(
            "reaction_wheel"@,
            entry(
                "reaction_wheel"@, "Gyroclaw"@, PartCategory::Control,
                PartModule::ReactionWheel { torque: 16_000 },
                140, 90, 40, 30, 1_500, false,
                "Electric attitude control without propellant bookkeeping."@,
            ),
        )
        .insert(
            "rcs"@,
            entry(
                "rcs"@, "Four-Pincer RCS"@, PartCategory::Control,
                PartModule::Rcs { thrust: 2_000, isp: 240 },
                35, 18, 40, 50, 1_700, true,
                "Four-way monopropellant attitude thruster."@,
            ),
        )
        .insert(
            "fin"@,
            entry(
                "fin"@, "Keel Fin"@, PartCategory::Aero,
                PartModule::Fin { lift: 7, steerable: false },
                45, 65, 120, 20, 1_400, true,
                "A fixed aerodynamic stabilizer."@,
            ),
        )
        .insert(
            "fin_control"@,
            entry(
                "fin_control"@, "Rudderclaw"@, PartCategory::Aero,
                PartModule::Fin { lift: 8, steerable: true },
                60, 70, 130, 22, 1_400, true,
                "A steerable fin for atmospheric control."@,
            ),
        )
        .insert(
            "nose"@,
            entry(
                "nose"@, "Low-Tide Nose Cone"@, PartCategory::Aero,
                PartModule::Structure,
                55, 85, 120, 12, 1_700, false,
                "Reduces drag on exposed stacks."@,
            ),
        )
        .insert(
            "heatshield"@,
            entry(
                "heatshield"@, "Ablative Shell"@, PartCategory::Utility,
                PartModule::HeatShield { ablator: 240 },
                220, 120, 25, 55, 3_400, false,
                "Sacrificial protection for atmospheric return."@,
            ),
        )
        .insert(
            "drogue"@,
            entry(
                "drogue"@, "Reefed Drogue"@, PartCategory::Utility,
                PartModule::Parachute { drag_area: 45, safe_speed: 700 },
                55, 35, 35, 40, 1_300, false,
                "A high-speed stabilizing parachute."@,
            ),
        )
        .insert(
            "parachute"@,
            entry(
                "parachute"@, "Main Canopy"@, PartCategory::Utility,
                PartModule::Parachute { drag_area: 260, safe_speed: 280 },
                90, 45, 40, 40, 1_300, false,
                "A large recovery canopy."@,
            ),
        )
        .insert(
            "landing_leg"@,
            entry(
                "landing_leg"@, "Shoreline Leg"@, PartCategory::Utility,
                PartModule::LandingLeg,
                70, 18, 150, 50, 1_500, true,
                "A compact shock-absorbing landing leg."@,
            ),
        )
}

impl Default for PartCatalog {
    /// The catalog of the stock parts.
    fn default() -> (r: Self)
        ensures
            r@ == stock_parts(),
    {
        let mut definitions: Vec<PartDefinition> = Vec::new();
        proof {
            assert(by_id(definitions@) =~= Map::<Seq<char>, DefinitionView>::empty());
        }
        put(&mut definitions, part(
            "pod_1", "Carapace Mk I", PartCategory::Command,
            PartModule::Command { seats: 1, torque: 8_000 },
            900, 115, 180, 28, 1_600, false,
            "A compact command pod for one intrepid crab.",
        ));
        put(&mut definitions, part(
            "pod_2", "Carapace Mk II", PartCategory::Command,
            PartModule::Command { seats: 2, torque: 12_000 },
            1_500, 145, 210, 30, 1_600, false,
            "A roomier pod with two acceleration couches and four cup holders.",
        ));
        put(&mut definitions, part(
            "engine_sl_s", "Littoral L-20", PartCategory::Propulsion,
            PartModule::LiquidEngine { thrust_vac: 240_000, thrust_sl: 205_000, isp_vac: 320, isp_sl: 285, gimbal_deg: 5 },
            650, 85, 120, 35, 2_100, false,
            "A dependable gimballed launch engine.",
        ));
        put(&mut definitions, part(
            "engine_sl_l", "Trench L-60", PartCategory::Propulsion,
            PartModule::LiquidEngine { thrust_vac: 720_000, thrust_sl: 630_000, isp_vac: 315, isp_sl: 280, gimbal_deg: 3 },
            1_450, 125, 170, 40, 2_200, false,
            "High thrust for heavy first stages.",
        ));
        put(&mut definitions, part(
            "engine_vac", "Abyssal V-9", PartCategory::Propulsion,
            PartModule::LiquidEngine { thrust_vac: 110_000, thrust_sl: 55_000, isp_vac: 365, isp_sl: 190, gimbal_deg: 4 },
            360, 75, 115, 32, 2_050, false,
            "An efficient vacuum engine with a wide bell.",
        ));
        put(&mut definitions, part(
            "solid_stack", "Barnacle S-12", PartCategory::Propulsion,
            PartModule::SolidEngine { thrust: 55_000, isp: 245, fuel: 1_700 },
            300, 75, 380, 42, 2_000, false,
            "A compact stack-mounted solid motor.",
        ));
        put(&mut definitions, part(
            "solid_radial", "Breakwater S-30", PartCategory::Propulsion,
            PartModule::SolidEngine { thrust: 110_000, isp: 235, fuel: 3_300 },
            500, 85, 600, 46, 2_000, true,
            "A muscular radial booster. Once lit, it stays lit.",
        ));
        put(&mut definitions, part(
            "tank_short", "Tidepool Tank", PartCategory::Fuel,
            PartModule::LiquidTank { fuel: 2_400 },
            280, 100, 200, 30, 1_500, false,
            "A short liquid propellant tank.",
        ));
        put(&mut definitions, part(
            "tank_long", "Bluewater Tank", PartCategory::Fuel,
            PartModule::LiquidTank { fuel: 6_200 },
            620, 100, 420, 30, 1_500, false,
            "A long liquid propellant tank.",
        ));
        put(&mut definitions, part(
            "mono_tank", "Current Monoprop Tank", PartCategory::Fuel,
            PartModule::MonopropTank { fuel: 220 },
            90, 70, 80, 30, 1_400, false,
            "Feeds RCS thrusters anywhere on the vessel.",
        ));
        put(&mut definitions, part(
            "decoupler_s", "Seam 1.25", PartCategory::Coupling,
            PartModule::InlineDecoupler { impulse: 1_500 },
            65, 100, 25, 35, 1_600, false,
            "An in-line stage separator.",
        ));
        put(&mut definitions, part(
            "decoupler_l", "Seam 2.5", PartCategory::Coupling,
            PartModule::InlineDecoupler { impulse: 2_500 },
            120, 130, 30, 35, 1_600, false,
            "A larger in-line stage separator.",
        ));
        put(&mut definitions, part(
            "decoupler_radial", "Side-Shedder", PartCategory::Coupling,
            PartModule::RadialDecoupler { impulse: 2_000 },
            75, 25, 100, 40, 1_600, true,
            "Releases a radially attached booster with clearance impulse.",
        ));
        put(&mut definitions, part(
            "reaction_wheel", "Gyroclaw", PartCategory::Control,
            PartModule::ReactionWheel { torque: 16_000 },
            140, 90, 40, 30, 1_500, false,
            "Electric attitude control without propellant bookkeeping.",
        ));
        put(&mut definitions, part(
            "rcs", "Four-Pincer RCS", PartCategory::Control,
            PartModule::Rcs { thrust: 2_000, isp: 240 },
            35, 18, 40, 50, 1_700, true,
            "Four-way monopropellant attitude thruster.",
        ));
        put(&mut definitions, part(
            "fin", "Keel Fin", PartCategory::Aero,
            PartModule::Fin { lift: 7, steerable: false },
            45, 65, 120, 20, 1_400, true,
            "A fixed aerodynamic stabilizer.",
        ));
        put(&mut definitions, part(
            "fin_control", "Rudderclaw", PartCategory::Aero,
            PartModule::Fin { lift: 8, steerable: true },
            60, 70, 130, 22, 1_400, true,
            "A steerable fin for atmospheric control.",
        ));
        put(&mut definitions, part(
            "nose", "Low-Tide Nose Cone", PartCategory::Aero,
            PartModule::Structure,
            55, 85, 120, 12, 1_700, false,
            "Reduces drag on exposed stacks.",
        ));
        put(&mut definitions, part(
            "heatshield", "Ablative Shell", PartCategory::Utility,
            PartModule::HeatShield { ablator: 240 },
            220, 120, 25, 55, 3_400, false,
            "Sacrificial protection for atmospheric return.",
        ));
        put(&mut definitions, part(
            "drogue", "Reefed Drogue", PartCategory::Utility,
            PartModule::Parachute { drag_area: 45, safe_speed: 700 },
            55, 35, 35, 40, 1_300, false,
            "A high-speed stabilizing parachute.",
        ));
        put(&mut definitions, part(
            "parachute", "Main Canopy", PartCategory::Utility,
            PartModule::Parachute { drag_area: 260, safe_speed: 280 },
            90, 45, 40, 40, 1_300, false,
            "A large recovery canopy.",
        ));
        put(&mut definitions, part(
            "landing_leg", "Shoreline Leg", PartCategory::Utility,
            PartModule::LandingLeg,
            70, 18, 150, 50, 1_500, true,
            "A compact shock-absorbing landing leg.",
        ));
        PartCatalog { definitions }
    }
}

impl Clone for PartCatalog {
    fn clone(&self) -> (r: Self)
        ensures
            r@ == self@,
    {
        proof {
            use_type_invariant(self);
        }
        let definitions = self.definitions.clone();
        proof {
            assert(definitions@ =~= self.definitions@);
        }
        PartCatalog { definitions }
    }
}

/// A kind is found under its own name, and only there; what is drawn as a box are the kinds
/// that go on the side, the fins, the legs and the thrusters.
pub proof fn law_kinds_are_found_by_name(
    catalog: &PartCatalog,
    id: &str,
    r: Option<&PartDefinition>,
    boxed: bool,
)
    requires
        call_ensures(PartCatalog::get, (catalog, id), r),
        r is Some ==> call_ensures(PartDefinition::is_boxed, (r->0,), boxed),
    ensures
        r is Some <==> catalog@.contains_key(id@),
        r is Some ==> r->0.id@ == id@ && r->0@ == catalog@[id@],
        r is Some ==> boxed == (r->0.radial || r->0.module is Fin || r->0.module is LandingLeg
            || r->0.module is Rcs),
{
}

/// A kind carries what its module holds: propellant of any sort, or ablator.
pub proof fn law_kinds_carry_what_they_hold(module: PartModule, r: u32)
    requires
        call_ensures(part_resource_capacity, (module,), r),
    ensures
        module is LiquidTank ==> r == module->LiquidTank_fuel,
        module is MonopropTank ==> r == module->MonopropTank_fuel,
        module is SolidEngine ==> r == module->SolidEngine_fuel,
        module is HeatShield ==> r == module->ablator,
        !(module is LiquidTank) && !(module is MonopropTank) && !(module is SolidEngine) && !(
        module is HeatShield) ==> r == 0,
{
}

/// The kinds in stock are fit for use: each under its own name, none without mass or extent,
/// all engines with more thrust and impulse in the void than at sea level, and each sorted
/// with its like.
pub proof fn law_stock_is_fit_for_use(id: Seq<char>)
    requires
        stock_parts().contains_key(id),
    ensures
        ({
            let kind = stock_parts()[id];
            &&& kind.id == id
            &&& 35 <= kind.dry_mass <= 1_500
            &&& 18 <= kind.radius <= 145
            &&& 25 <= kind.height <= 600
            &&& 12 <= kind.drag_coefficient <= 55
            &&& 1_300 <= kind.max_temperature <= 3_400
            &&& kind.module is HeatShield <==> kind.max_temperature > 2_200
            &&& kind.module is Command <==> kind.category == PartCategory::Command
            &&& kind.module is LiquidEngine || kind.module is SolidEngine <==> kind.category
                == PartCategory::Propulsion
            &&& kind.module is LiquidTank || kind.module is MonopropTank <==> kind.category
                == PartCategory::Fuel
            &&& kind.module is InlineDecoupler || kind.module is RadialDecoupler <==> kind.category
                == PartCategory::Coupling
            &&& kind.module is ReactionWheel || kind.module is Rcs <==> kind.category
                == PartCategory::Control
            &&& kind.module is Fin || kind.module is Structure <==> kind.category
                == PartCategory::Aero
            &&& kind.module is Parachute || kind.module is HeatShield || kind.module is LandingLeg
                <==> kind.category == PartCategory::Utility
            &&& kind.module is RadialDecoupler || kind.module is Fin || kind.module is Rcs
                || kind.module is LandingLeg ==> kind.radial
            &&& kind.module is LiquidEngine ==> 0 < kind.module->thrust_sl
                < kind.module->thrust_vac && 0 < kind.module->isp_sl < kind.module->isp_vac
            &&& kind.module is SolidEngine ==> kind.module->SolidEngine_thrust > 0
                && kind.module->SolidEngine_isp > 0 && kind.module->SolidEngine_fuel
                > kind.dry_mass
            &&& kind.module is LiquidTank ==> kind.module->LiquidTank_fuel > 8 * kind.dry_mass
        }),
{
}

} // verus!
