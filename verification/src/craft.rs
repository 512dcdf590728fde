//! Craft blueprints: parts in a tree, the staging list and launch checks.
use crate::number::Single;
use crate::parts::{DefinitionView, PartCatalog, PartModule};
use crate::text::{digits, push_decimal};
use std::collections::BTreeSet;
use vstd::prelude::*;

verus! {

/// The number of parts that a craft may have.
pub const MAX_PARTS: usize = 128;

/// What a stage does to one part, given by its number.
#[derive(Debug, Clone, Copy, PartialEq, Eq, Structural)]
pub enum StageAction {
    ActivateEngine(u64),
    Decouple(u64),
    DeployParachute(u64),
}

/// Actions that one press of the staging key performs together.
#[derive(Debug)]
pub struct Stage {
    pub name: String,
    pub actions: Vec<StageAction>,
}

/// A stage with its actions as a sequence.
pub struct StageView {
    pub name: String,
    pub actions: Seq<StageAction>,
}

impl View for Stage {
    type V = StageView;

    open spec fn view(&self) -> StageView {
        StageView { name: self.name, actions: self.actions@ }
    }
}

impl Clone for Stage {
    fn clone(&self) -> (r: Self)
        ensures
            r@ == self@,
    {
        let actions = self.actions.clone();
        proof {
            assert(actions@ =~= self.actions@);
        }
        Stage { name: self.name.clone(), actions }
    }
}

/// A part of a craft: which kind, where, and what it hangs on.
#[derive(Debug)]
pub struct PartInstance {
    pub instance_id: u64,
    pub definition_id: String,
    pub parent: Option<u64>,
    pub local_position: [Single; 3],
    pub local_rotation: [Single; 4],
}

impl Clone for PartInstance {
    fn clone(&self) -> (r: Self)
        ensures
            r == *self,
    {
        PartInstance {
            instance_id: self.instance_id,
            definition_id: self.definition_id.clone(),
            parent: self.parent,
            local_position: self.local_position,
            local_rotation: self.local_rotation,
        }
    }
}

/// The design of a craft.
#[derive(Debug)]
pub struct CraftBlueprint {
    pub schema_version: u32,
    pub name: String,
    pub parts: Vec<PartInstance>,
    pub stages: Vec<Stage>,
    pub crew: Vec<String>,
    pub script_name: Option<String>,
}

/// A blueprint with its lists as sequences.
pub struct BlueprintView {
    pub schema_version: u32,
    pub name: String,
    pub parts: Seq<PartInstance>,
    pub stages: Seq<StageView>,
    pub crew: Seq<String>,
    pub script_name: Option<String>,
}

/// The stages with their actions as sequences.
pub open spec fn stages_view(stages: Seq<Stage>) -> Seq<StageView> {
    stages.map_values(|stage: Stage| stage@)
}

impl View for CraftBlueprint {
    type V = BlueprintView;

    open spec fn view(&self) -> BlueprintView {
        BlueprintView {
            schema_version: self.schema_version,
            name: self.name,
            parts: self.parts@,
            stages: stages_view(self.stages@),
            crew: self.crew@,
            script_name: self.script_name,
        }
    }
}

impl Clone for CraftBlueprint {
    fn clone(&self) -> (r: Self)
        ensures
            r@ == self@,
    {
        let parts = self.parts.clone();
        let stages = self.stages.clone();
        let crew = self.crew.clone();
        proof {
            assert(parts@ =~= self.parts@);
            assert(stages_view(stages@) =~= stages_view(self.stages@));
            assert(crew@ =~= self.crew@);
        }
        CraftBlueprint {
            schema_version: self.schema_version,
            name: self.name.clone(),
            parts,
            stages,
            crew,
            script_name: match &self.script_name {
                Some(name) => Some(name.clone()),
                None => None,
            },
        }
    }
}

/// What the launch check has to say: an error forbids the launch.
#[derive(Debug, PartialEq, Eq)]
pub enum ValidationIssue {
    Error(String),
    Warning(String),
}

/// An issue with its text as a sequence of characters.
pub enum IssueView {
    Error(Seq<char>),
    Warning(Seq<char>),
}

impl View for ValidationIssue {
    type V = IssueView;

    open spec fn view(&self) -> IssueView {
        match self {
            ValidationIssue::Error(text) => IssueView::Error(text@),
            ValidationIssue::Warning(text) => IssueView::Warning(text@),
        }
    }
}

impl Clone for ValidationIssue {
    fn clone(&self) -> (r: Self)
        ensures
            r == *self,
    {
        match self {
            ValidationIssue::Error(text) => ValidationIssue::Error(text.clone()),
            ValidationIssue::Warning(text) => ValidationIssue::Warning(text.clone()),
        }
    }
}

/// The parts without a parent.
pub open spec fn roots(parts: Seq<PartInstance>) -> Seq<PartInstance> {
    parts.filter(|part: PartInstance| part.parent is None)
}

/// The parts that hang on the part `id`.
pub open spec fn children(parts: Seq<PartInstance>, id: u64) -> Seq<PartInstance> {
    parts.filter(|part: PartInstance| part.parent == Some(id))
}

/// Whether one of the parts has the number `id`.
pub open spec fn has_part(parts: Seq<PartInstance>, id: u64) -> bool {
    exists|i: int| 0 <= i < parts.len() && (#[trigger] parts[i]).instance_id == id
}

/// Whether `id` is one above the largest part number, or one without parts.
pub open spec fn is_next_id(parts: Seq<PartInstance>, id: u64) -> bool {
    &&& forall|i: int| 0 <= i < parts.len() ==> (#[trigger] parts[i]).instance_id < id
    &&& id == 1 && parts.len() == 0 || id >= 1 && has_part(parts, (id - 1) as u64)
}

/// What the launch check says of one part.
pub open spec fn part_issues(
    parts: Seq<PartInstance>,
    catalog: Map<Seq<char>, DefinitionView>,
    part: PartInstance,
) -> Seq<IssueView> {
    (if catalog.contains_key(part.definition_id@) {
        seq![]
    } else {
        seq![IssueView::Error("Unknown part "@ + part.definition_id@)]
    }) + (if part.parent is None || has_part(parts, part.parent->0) {
        seq![]
    } else {
        seq![
            IssueView::Error(
                "Part "@ + digits(part.instance_id as nat) + " has a missing parent"@,
            ),
        ]
    })
}

/// What the launch check says of the first `n` parts.
pub open spec fn issues_of_first(
    parts: Seq<PartInstance>,
    catalog: Map<Seq<char>, DefinitionView>,
    n: int,
) -> Seq<IssueView>
    decreases n,
{
    if n <= 0 {
        seq![]
    } else {
        issues_of_first(parts, catalog, n - 1) + part_issues(parts, catalog, parts[n - 1])
    }
}

/// Whether a part with such a module is among the parts.
pub open spec fn carries(
    parts: Seq<PartInstance>,
    catalog: Map<Seq<char>, DefinitionView>,
    wanted: spec_fn(PartModule) -> bool,
) -> bool {
    exists|i: int|
        0 <= i < parts.len() && catalog.contains_key((#[trigger] parts[i]).definition_id@)
            && wanted(catalog[parts[i].definition_id@].module)
}

/// Whether the module is an engine.
pub open spec fn is_engine(module: PartModule) -> bool {
    module is LiquidEngine || module is SolidEngine
}

/// The issue, unless the condition holds.
pub open spec fn unless(condition: bool, issue: IssueView) -> Seq<IssueView> {
    if condition {
        seq![]
    } else {
        seq![issue]
    }
}

/// All that the launch check says of the parts.
pub open spec fn validation(
    parts: Seq<PartInstance>,
    catalog: Map<Seq<char>, DefinitionView>,
) -> Seq<IssueView> {
    if parts.len() == 0 {
        seq![IssueView::Error("The vehicle has no parts"@)]
    } else {
        unless(
            parts.len() <= MAX_PARTS,
            IssueView::Error("Vehicle exceeds the 128-part limit"@),
        ) + unless(
            roots(parts).len() == 1,
            IssueView::Error("Vehicle must have exactly one root part"@),
        ) + issues_of_first(parts, catalog, parts.len() as int) + unless(
            carries(parts, catalog, |m: PartModule| m is Command),
            IssueView::Error("Add a command pod before launch"@),
        ) + unless(
            carries(parts, catalog, |m: PartModule| is_engine(m)),
            IssueView::Warning("This craft has no engine"@),
        ) + unless(
            carries(parts, catalog, |m: PartModule| m is Parachute),
            IssueView::Warning("No parachute is installed"@),
        )
    }
}

/// The issues with their texts as sequences of characters.
pub open spec fn issues_view(issues: Seq<ValidationIssue>) -> Seq<IssueView> {
    issues.map_values(|issue: ValidationIssue| issue@)
}

fn report(issues: &mut Vec<ValidationIssue>, condition: bool, issue: ValidationIssue)
    ensures
        issues_view(final(issues)@) == issues_view(old(issues)@) + unless(condition, issue@),
{
    if !condition {
        issues.push(issue);
    }
    proof {
        assert(issues_view(issues@) =~= issues_view(old(issues)@) + unless(condition, issue@));
    }
}

impl CraftBlueprint {
    /// The number of the first part without a parent.
    pub fn root(&self) -> (r: Option<u64>)
        ensures
            match r {
                Some(id) => roots(self.parts@).len() > 0 && roots(self.parts@)[0].instance_id == id,
                None => roots(self.parts@).len() == 0,
            },
    {
        let ghost free = |part: PartInstance| part.parent is None;
        for i in 0..self.parts.len()
            invariant
                free == (|part: PartInstance| part.parent is None),
                self.parts@.take(i as int).filter(free).len() == 0,
        {
            proof {
                lemma_filter_step(self.parts@, free, i as int);
            }
            if self.parts[i].parent.is_none() {
                proof {
                    let head = self.parts@.take(i + 1);
                    let tail = self.parts@.skip(i + 1);
                    assert(head + tail =~= self.parts@);
                    Seq::filter_distributes_over_add(head, tail, free);
                    assert(roots(self.parts@) == head.filter(free) + tail.filter(free));
                }
                return Some(self.parts[i].instance_id);
            }
        }
        proof {
            assert(self.parts@.take(self.parts@.len() as int) =~= self.parts@);
        }
        None
    }

    /// A number for the next part.
    pub fn next_id(&self) -> (r: u64)
        requires
            forall|i: int|
                0 <= i < self.parts.len() ==> (#[trigger] self.parts@[i]).instance_id < u64::MAX,
        ensures
            is_next_id(self.parts@, r),
    {
        let mut largest: u64 = 0;
        for i in 0..self.parts.len()
            invariant
                forall|k: int|
                    0 <= k < self.parts.len() ==> (#[trigger] self.parts@[k]).instance_id
                        < u64::MAX,
                forall|k: int| 0 <= k < i ==> (#[trigger] self.parts@[k]).instance_id <= largest,
                largest < u64::MAX,
                i == 0 ==> largest == 0,
                i > 0 ==> has_part(self.parts@, largest),
        {
            let id: u64 = self.parts[i].instance_id;
            if i == 0 || id > largest {
                largest = id;
            }
        }
        largest + 1
    }

    /// The parts that hang on the part `id`, in their order.
    pub fn children_of(&self, id: u64) -> (r: Vec<&PartInstance>)
        ensures
            r@.map_values(|part: &PartInstance| *part) == children(self.parts@, id),
    {
        let ghost hangs = |part: PartInstance| part.parent == Some(id);
        let mut r: Vec<&PartInstance> = Vec::new();
        for i in 0..self.parts.len()
            invariant
                hangs == (|part: PartInstance| part.parent == Some(id)),
                r@.map_values(|part: &PartInstance| *part) == self.parts@.take(i as int).filter(
                    hangs,
                ),
        {
            proof {
                lemma_filter_step(self.parts@, hangs, i as int);
            }
            let ghost prior = r@;
            if self.parts[i].parent == Some(id) {
                r.push(&self.parts[i]);
                proof {
                    assert(r@.map_values(|part: &PartInstance| *part) =~= prior.map_values(
                        |part: &PartInstance| *part,
                    ).push(self.parts@[i as int]));
                }
            }
        }
        proof {
            assert(self.parts@.take(self.parts@.len() as int) =~= self.parts@);
        }
        r
    }

    /// What stands against a launch, and what the pilot should know before it.
    pub fn validate(&self, catalog: &PartCatalog) -> (r: Vec<ValidationIssue>)
        ensures
            issues_view(r@) == validation(self.parts@, catalog@),
    {
        let mut issues: Vec<ValidationIssue> = Vec::new();
        proof {
            assert(issues_view(issues@) =~= Seq::<IssueView>::empty());
        }
        if self.parts.len() == 0 {
            report(
                &mut issues,
                false,
                ValidationIssue::Error("The vehicle has no parts".to_owned()),
            );
            proof {
                assert(issues_view(issues@) =~= validation(self.parts@, catalog@));
            }
            return issues;
        }
        report(
            &mut issues,
            self.parts.len() <= MAX_PARTS,
            ValidationIssue::Error("Vehicle exceeds the 128-part limit".to_owned()),
        );
        report(
            &mut issues,
            count_roots(&self.parts) == 1,
            ValidationIssue::Error("Vehicle must have exactly one root part".to_owned()),
        );
        let ids = part_ids(&self.parts);
        let ghost general = issues_view(issues@);
        proof {
            assert(general + issues_of_first(self.parts@, catalog@, 0) =~= general);
        }
        for i in 0..self.parts.len()
            invariant
                forall|id: u64| #[trigger] ids@.contains(id) <==> has_part(self.parts@, id),
                issues_view(issues@) == general + issues_of_first(
                    self.parts@,
                    catalog@,
                    i as int,
                ),
        {
            let part = &self.parts[i];
            let ghost before = issues_view(issues@);
            let known = catalog.get(&part.definition_id).is_some();
            report(&mut issues, known, unknown_part(part));
            let attached = match part.parent {
                Some(parent) => ids.contains(&parent),
                None => true,
            };
            report(&mut issues, attached, missing_parent(part));
            proof {
                assert(issues_view(issues@) =~= before + part_issues(
                    self.parts@,
                    catalog@,
                    *part,
                ));
                assert(issues_view(issues@) =~= general + issues_of_first(
                    self.parts@,
                    catalog@,
                    i + 1,
                ));
            }
        }
        report(
            &mut issues,
            carries_command(&self.parts, catalog),
            ValidationIssue::Error("Add a command pod before launch".to_owned()),
        );
        report(
            &mut issues,
            carries_engine(&self.parts, catalog),
            ValidationIssue::Warning("This craft has no engine".to_owned()),
        );
        report(
            &mut issues,
            carries_parachute(&self.parts, catalog),
            ValidationIssue::Warning("No parachute is installed".to_owned()),
        );
        proof {
            assert(issues_view(issues@) =~= validation(self.parts@, catalog@));
        }
        issues
    }
}

fn unknown_part(part: &PartInstance) -> (r: ValidationIssue)
    ensures
        r@ == IssueView::Error("Unknown part "@ + part.definition_id@),
{
    let mut text = "Unknown part ".to_owned();
    text.append(&part.definition_id);
    ValidationIssue::Error(text)
}

fn missing_parent(part: &PartInstance) -> (r: ValidationIssue)
    ensures
        r@ == IssueView::Error(
            "Part "@ + digits(part.instance_id as nat) + " has a missing parent"@,
        ),
{
    let mut text = "Part ".to_owned();
    push_decimal(&mut text, part.instance_id);
    text.append(" has a missing parent");
    ValidationIssue::Error(text)
}

fn count_roots(parts: &Vec<PartInstance>) -> (r: usize)
    ensures
        r == roots(parts@).len(),
{
    let ghost free = |part: PartInstance| part.parent is None;
    let mut count: usize = 0;
    for i in 0..parts.len()
        invariant
            free == (|part: PartInstance| part.parent is None),
            count == parts@.take(i as int).filter(free).len(),
            count <= i,
    {
        proof {
            lemma_filter_step(parts@, free, i as int);
        }
        if parts[i].parent.is_none() {
            count = count + 1;
        }
    }
    proof {
        assert(parts@.take(parts@.len() as int) =~= parts@);
    }
    count
}

/// The numbers of the parts.
pub fn part_ids(parts: &Vec<PartInstance>) -> (r: BTreeSet<u64>)
    ensures
        forall|id: u64| #[trigger] r@.contains(id) <==> has_part(parts@, id),
{
    let mut ids: BTreeSet<u64> = BTreeSet::new();
    for i in 0..parts.len()
        invariant
            forall|id: u64| #[trigger]
                ids@.contains(id) <==> exists|k: int|
                    0 <= k < i && (#[trigger] parts@[k]).instance_id == id,
    {
        ids.insert(parts[i].instance_id);
    }
    ids
}

/// Whether a command pod is among the parts.
pub fn carries_command(parts: &Vec<PartInstance>, catalog: &PartCatalog) -> (r: bool)
    ensures
        r == carries(parts@, catalog@, |m: PartModule| m is Command),
{
    for i in 0..parts.len()
        invariant
            forall|k: int|
                0 <= k < i ==> {
                    ||| !catalog@.contains_key((#[trigger] parts@[k]).definition_id@)
                    ||| !({
                        let m = catalog@[parts@[k].definition_id@].module;
                        m is Command
                    })
                },
    {
        if let Some(definition) = catalog.get(&parts[i].definition_id) {
            if matches!(definition.module, PartModule::Command { .. }) {
                return true;
            }
        }
    }
    false
}

/// Whether an engine is among the parts.
pub fn carries_engine(parts: &Vec<PartInstance>, catalog: &PartCatalog) -> (r: bool)
    ensures
        r == carries(parts@, catalog@, |m: PartModule| is_engine(m)),
{
    for i in 0..parts.len()
        invariant
            forall|k: int|
                0 <= k < i ==> {
                    ||| !catalog@.contains_key((#[trigger] parts@[k]).definition_id@)
                    ||| !({
                        let m = catalog@[parts@[k].definition_id@].module;
                        is_engine(m)
                    })
                },
    {
        if let Some(definition) = catalog.get(&parts[i].definition_id) {
            if matches!(definition.module, PartModule::LiquidEngine { .. } | PartModule::SolidEngine { .. }) {
                return true;
            }
        }
    }
    false
}

/// Whether a parachute is among the parts.
pub fn carries_parachute(parts: &Vec<PartInstance>, catalog: &PartCatalog) -> (r: bool)
    ensures
        r == carries(parts@, catalog@, |m: PartModule| m is Parachute),
{
    for i in 0..parts.len()
        invariant
            forall|k: int|
                0 <= k < i ==> {
                    ||| !catalog@.contains_key((#[trigger] parts@[k]).definition_id@)
                    ||| !({
                        let m = catalog@[parts@[k].definition_id@].module;
                        m is Parachute
                    })
                },
    {
        if let Some(definition) = catalog.get(&parts[i].definition_id) {
            if matches!(definition.module, PartModule::Parachute { .. }) {
                return true;
            }
        }
    }
    false
}

/// Whether an error is among the issues.
pub open spec fn has_error(issues: Seq<IssueView>) -> bool {
    exists|i: int| 0 <= i < issues.len() && #[trigger] issues[i] is Error
}

/// Whether every part is of a known kind and hangs on a part of the craft.
pub open spec fn sound_parts(
    parts: Seq<PartInstance>,
    catalog: Map<Seq<char>, DefinitionView>,
    n: int,
) -> bool {
    forall|i: int|
        0 <= i < n ==> {
            &&& catalog.contains_key((#[trigger] parts[i]).definition_id@)
            &&& parts[i].parent is None || has_part(parts, parts[i].parent->0)
        }
}

/// The launch check finds no error exactly in a craft of one to the limit of
/// parts, one of them the root, all of a known kind and attached to parts of the
/// craft, with a command pod among them.
pub proof fn law_what_may_launch(
    parts: Seq<PartInstance>,
    catalog: Map<Seq<char>, DefinitionView>,
)
    ensures
        !has_error(validation(parts, catalog)) <==> {
            &&& 0 < parts.len() <= MAX_PARTS
            &&& roots(parts).len() == 1
            &&& sound_parts(parts, catalog, parts.len() as int)
            &&& carries(parts, catalog, |m: PartModule| m is Command)
        },
{
    if parts.len() == 0 {
        assert(validation(parts, catalog)[0] is Error);
    } else {
        let n = parts.len() as int;
        let a = unless(
            parts.len() <= MAX_PARTS,
            IssueView::Error("Vehicle exceeds the 128-part limit"@),
        );
        let b = unless(
            roots(parts).len() == 1,
            IssueView::Error("Vehicle must have exactly one root part"@),
        );
        let c = issues_of_first(parts, catalog, n);
        let d = unless(
            carries(parts, catalog, |m: PartModule| m is Command),
            IssueView::Error("Add a command pod before launch"@),
        );
        let e = unless(
            carries(parts, catalog, |m: PartModule| is_engine(m)),
            IssueView::Warning("This craft has no engine"@),
        );
        let f = unless(
            carries(parts, catalog, |m: PartModule| m is Parachute),
            IssueView::Warning("No parachute is installed"@),
        );
        lemma_errors_of_parts(parts, catalog, n);
        lemma_has_error_adds(a, b);
        lemma_has_error_adds(a + b, c);
        lemma_has_error_adds(a + b + c, d);
        lemma_has_error_adds(a + b + c + d, e);
        lemma_has_error_adds(a + b + c + d + e, f);
        assert(a.len() > 0 ==> a[0] is Error);
        assert(b.len() > 0 ==> b[0] is Error);
        assert(d.len() > 0 ==> d[0] is Error);
        assert(!has_error(e) && !has_error(f));
    }
}

/// A number for the next part is not in use.
pub proof fn law_next_id_is_fresh(parts: Seq<PartInstance>, id: u64)
    requires
        is_next_id(parts, id),
    ensures
        !has_part(parts, id),
{
}

proof fn lemma_has_error_adds(a: Seq<IssueView>, b: Seq<IssueView>)
    ensures
        has_error(a + b) == (has_error(a) || has_error(b)),
{
    if has_error(a) {
        let i = choose|i: int| 0 <= i < a.len() && #[trigger] a[i] is Error;
        assert((a + b)[i] is Error);
    }
    if has_error(b) {
        let i = choose|i: int| 0 <= i < b.len() && #[trigger] b[i] is Error;
        assert((a + b)[a.len() + i] is Error);
    }
    if has_error(a + b) {
        let i = choose|i: int| 0 <= i < (a + b).len() && #[trigger] (a + b)[i] is Error;
        if i < a.len() {
            assert(a[i] is Error);
        } else {
            assert(b[i - a.len()] is Error);
        }
    }
}

proof fn lemma_errors_of_parts(
    parts: Seq<PartInstance>,
    catalog: Map<Seq<char>, DefinitionView>,
    n: int,
)
    requires
        0 <= n <= parts.len(),
    ensures
        has_error(issues_of_first(parts, catalog, n)) == !sound_parts(parts, catalog, n),
    decreases n,
{
    if n > 0 {
        let part = parts[n - 1];
        let issues = part_issues(parts, catalog, part);
        lemma_errors_of_parts(parts, catalog, n - 1);
        lemma_has_error_adds(issues_of_first(parts, catalog, n - 1), issues);
        assert(issues.len() > 0 ==> issues[0] is Error);
        assert(sound_parts(parts, catalog, n) == (sound_parts(parts, catalog, n - 1) && {
            &&& catalog.contains_key(part.definition_id@)
            &&& part.parent is None || has_part(parts, part.parent->0)
        }));
    }
}

/// Filtering one element more.
pub proof fn lemma_filter_step<T>(items: Seq<T>, wanted: spec_fn(T) -> bool, i: int)
    requires
        0 <= i < items.len(),
    ensures
        items.take(i + 1).filter(wanted) == (if wanted(items[i]) {
            items.take(i).filter(wanted).push(items[i])
        } else {
            items.take(i).filter(wanted)
        }),
{
    reveal(Seq::filter);
    assert(items.take(i + 1).drop_last() =~= items.take(i));
}

/// Whether the part is upright, with this number, kind, parent and place.
pub open spec fn is_stock_part(
    part: PartInstance,
    id: u64,
    definition_id: Seq<char>,
    parent: Option<u64>,
    x: u32,
    y: u32,
    z: u32,
) -> bool {
    &&& part.instance_id == id
    &&& part.definition_id@ == definition_id
    &&& part.parent == parent
    &&& part.local_position@ == seq![Single { bits: x }, Single { bits: y }, Single { bits: z }]
    &&& part.local_rotation@ == upright()
}

/// The rotation that turns nothing.
pub open spec fn upright() -> Seq<Single> {
    seq![
        Single { bits: 0 },
        Single { bits: 0 },
        Single { bits: 0 },
        Single { bits: 0x3f80_0000 },
    ]
}

/// The parts of the stock craft.
pub open spec fn are_stock_parts(parts: Seq<PartInstance>) -> bool {
    &&& parts.len() == 15
    &&& is_stock_part(parts[0], 1, "pod_1"@, None, 0, 0x4116_6666, 0)
    &&& is_stock_part(parts[1], 2, "parachute"@, Some(1), 0, 0x4128_cccd, 0)
    &&& is_stock_part(parts[2], 3, "heatshield"@, Some(1), 0, 0x4105_999a, 0)
    &&& is_stock_part(parts[3], 4, "tank_short"@, Some(3), 0, 0x40e6_6666, 0)
    &&& is_stock_part(parts[4], 5, "reaction_wheel"@, Some(4), 0, 0x40be_6666, 0)
    &&& is_stock_part(parts[5], 6, "engine_vac"@, Some(5), 0, 0x40a3_3333, 0)
    &&& is_stock_part(parts[6], 7, "decoupler_s"@, Some(6), 0, 0x408b_3333, 0)
    &&& is_stock_part(parts[7], 8, "tank_long"@, Some(7), 0, 0x4006_6666, 0)
    &&& is_stock_part(parts[8], 9, "engine_sl_s"@, Some(8), 0, 0xbf19_999a, 0)
    &&& is_stock_part(parts[9], 10, "decoupler_radial"@, Some(8), 0x3fac_cccd, 0x4000_0000, 0)
    &&& is_stock_part(parts[10], 11, "solid_radial"@, Some(10), 0x4010_0000, 0x3f80_0000, 0)
    &&& is_stock_part(parts[11], 12, "decoupler_radial"@, Some(8), 0xbfac_cccd, 0x4000_0000, 0)
    &&& is_stock_part(parts[12], 13, "solid_radial"@, Some(12), 0xc010_0000, 0x3f80_0000, 0)
    &&& is_stock_part(parts[13], 14, "fin_control"@, Some(8), 0x3fa6_6666, 0x3e4c_cccd, 0)
    &&& is_stock_part(parts[14], 15, "fin_control"@, Some(8), 0xbfa6_6666, 0x3e4c_cccd, 0)
}

/// Whether the stage has this name and these actions.
pub open spec fn is_stage(stage: Stage, name: Seq<char>, actions: Seq<StageAction>) -> bool {
    stage.name@ == name && stage.actions@ == actions
}

/// The stages of the stock craft.
pub open spec fn are_stock_stages(stages: Seq<Stage>) -> bool {
    &&& stages.len() == 4
    &&& is_stage(
        stages[0],
        "Ignition"@,
        seq![
            StageAction::ActivateEngine(9),
            StageAction::ActivateEngine(11),
            StageAction::ActivateEngine(13),
        ],
    )
    &&& is_stage(
        stages[1],
        "Shed boosters"@,
        seq![StageAction::Decouple(10), StageAction::Decouple(12)],
    )
    &&& is_stage(
        stages[2],
        "Upper stage"@,
        seq![StageAction::Decouple(7), StageAction::ActivateEngine(6)],
    )
    &&& is_stage(stages[3], "Recovery"@, seq![StageAction::DeployParachute(2)])
}

/// An upright part with this number, kind, parent and place.
pub fn stock_part(
    id: u64,
    definition_id: &str,
    parent: Option<u64>,
    x: u32,
    y: u32,
    z: u32,
) -> (r: PartInstance)
    ensures
        is_stock_part(r, id, definition_id@, parent, x, y, z),
{
    let r = PartInstance {
        instance_id: id,
        definition_id: definition_id.to_owned(),
        parent,
        local_position: [Single { bits: x }, Single { bits: y }, Single { bits: z }],
        local_rotation: [
            Single { bits: 0 },
            Single { bits: 0 },
            Single { bits: 0 },
            Single { bits: 0x3f80_0000 },
        ],
    };
    proof {
        assert(r.local_position@ =~= seq![
            Single { bits: x },
            Single { bits: y },
            Single { bits: z },
        ]);
        assert(r.local_rotation@ =~= upright());
    }
    r
}

fn stage(name: &str, actions: Vec<StageAction>) -> (r: Stage)
    ensures
        is_stage(r, name@, actions@),
{
    Stage { name: name.to_owned(), actions }
}

/// The craft that comes with the game.
pub fn stock_craft() -> (r: CraftBlueprint)
    ensures
        r.schema_version == 1,
        r.name@ == "Crabitat Pathfinder"@,
        are_stock_parts(r.parts@),
        are_stock_stages(r.stages@),
        r.crew.len() == 1,
        r.crew@[0]@ == "Dr. Clawdia Current"@,
        r.script_name is Some,
        r.script_name->0@ == "guided_ascent.lua"@,
{
    let parts = vec![
        stock_part(1, "pod_1", None, 0, 0x4116_6666, 0),
        stock_part(2, "parachute", Some(1), 0, 0x4128_cccd, 0),
        stock_part(3, "heatshield", Some(1), 0, 0x4105_999a, 0),
        stock_part(4, "tank_short", Some(3), 0, 0x40e6_6666, 0),
        stock_part(5, "reaction_wheel", Some(4), 0, 0x40be_6666, 0),
        stock_part(6, "engine_vac", Some(5), 0, 0x40a3_3333, 0),
        stock_part(7, "decoupler_s", Some(6), 0, 0x408b_3333, 0),
        stock_part(8, "tank_long", Some(7), 0, 0x4006_6666, 0),
        stock_part(9, "engine_sl_s", Some(8), 0, 0xbf19_999a, 0),
        stock_part(10, "decoupler_radial", Some(8), 0x3fac_cccd, 0x4000_0000, 0),
        stock_part(11, "solid_radial", Some(10), 0x4010_0000, 0x3f80_0000, 0),
        stock_part(12, "decoupler_radial", Some(8), 0xbfac_cccd, 0x4000_0000, 0),
        stock_part(13, "solid_radial", Some(12), 0xc010_0000, 0x3f80_0000, 0),
        stock_part(14, "fin_control", Some(8), 0x3fa6_6666, 0x3e4c_cccd, 0),
        stock_part(15, "fin_control", Some(8), 0xbfa6_6666, 0x3e4c_cccd, 0),
    ];
    let stages = vec![
        stage("Ignition", vec![
            StageAction::ActivateEngine(9),
            StageAction::ActivateEngine(11),
            StageAction::ActivateEngine(13),
        ]),
        stage("Shed boosters", vec![StageAction::Decouple(10), StageAction::Decouple(12)]),
        stage("Upper stage", vec![StageAction::Decouple(7), StageAction::ActivateEngine(6)]),
        stage("Recovery", vec![StageAction::DeployParachute(2)]),
    ];
    proof {
        assert(stages@[0].actions@ =~= seq![
            StageAction::ActivateEngine(9),
            StageAction::ActivateEngine(11),
            StageAction::ActivateEngine(13),
        ]);
        assert(stages@[1].actions@ =~= seq![StageAction::Decouple(10), StageAction::Decouple(12)]);
        assert(stages@[2].actions@ =~= seq![
            StageAction::Decouple(7),
            StageAction::ActivateEngine(6),
        ]);
        assert(stages@[3].actions@ =~= seq![StageAction::DeployParachute(2)]);
    }
    let crew = vec!["Dr. Clawdia Current".to_owned()];
    CraftBlueprint {
        schema_version: 1,
        name: "Crabitat Pathfinder".to_owned(),
        parts,
        stages,
        crew,
        script_name: Some("guided_ascent.lua".to_owned()),
    }
}

/// What is filtered out of a list keeps its order: the first that is kept is the first that is
/// wanted, and none is kept exactly where none is wanted.
pub proof fn lemma_filter_keeps_the_first<T>(items: Seq<T>, wanted: spec_fn(T) -> bool)
    ensures
        items.filter(wanted).len() == 0 <==> forall|i: int|
            0 <= i < items.len() ==> !wanted(#[trigger] items[i]),
        items.filter(wanted).len() > 0 ==> exists|k: int|
            0 <= k < items.len() && #[trigger] items[k] == items.filter(wanted)[0] && wanted(
                items[k],
            ) && forall|j: int| 0 <= j < k ==> !wanted(#[trigger] items[j]),
    decreases items.len(),
{
    reveal(Seq::filter);
    if items.len() > 0 {
        let fewer = items.drop_last();
        lemma_filter_keeps_the_first(fewer, wanted);
        if fewer.filter(wanted).len() > 0 {
            let k = choose|k: int|
                0 <= k < fewer.len() && #[trigger] fewer[k] == fewer.filter(wanted)[0] && wanted(
                    fewer[k],
                ) && forall|j: int| 0 <= j < k ==> !wanted(#[trigger] fewer[j]);
            assert(items[k] == items.filter(wanted)[0]);
            assert forall|j: int| 0 <= j < k implies !wanted(#[trigger] items[j]) by {
                assert(items[j] == fewer[j]);
            }
        } else {
            assert forall|j: int| 0 <= j < fewer.len() implies !wanted(#[trigger] items[j]) by {
                assert(items[j] == fewer[j]);
            }
            if wanted(items.last()) {
                assert(items[items.len() - 1] == items.filter(wanted)[0]);
            }
        }
    }
}

/// The root of a craft is its first part that hangs on nothing.
pub proof fn law_root_hangs_on_nothing(craft: &CraftBlueprint, r: Option<u64>)
    requires
        call_ensures(CraftBlueprint::root, (craft,), r),
    ensures
        r is None <==> forall|i: int|
            0 <= i < craft.parts@.len() ==> (#[trigger] craft.parts@[i]).parent is Some,
        r is Some ==> exists|k: int|
            {
                &&& 0 <= k < craft.parts@.len() && (#[trigger] craft.parts@[k]).instance_id == r->0
                &&& craft.parts@[k].parent is None
                &&& forall|j: int| 0 <= j < k ==> (#[trigger] craft.parts@[j]).parent is Some
            },
{
    lemma_filter_keeps_the_first(craft.parts@, |part: PartInstance| part.parent is None);
}

/// The children of a part are the parts that hang on it, in the order of the craft: with one
/// more part on the craft there is one more where that part hangs on it.
pub proof fn law_children_hang_on_their_parent(
    craft: &CraftBlueprint,
    longer: &CraftBlueprint,
    part: PartInstance,
    id: u64,
    before: Vec<&PartInstance>,
    after: Vec<&PartInstance>,
)
    requires
        longer.parts@ == craft.parts@.push(part),
        call_ensures(CraftBlueprint::children_of, (craft, id), before),
        call_ensures(CraftBlueprint::children_of, (longer, id), after),
    ensures
        part.parent == Some(id) ==> after@.len() == before@.len() + 1 && *after@.last() == part,
        part.parent != Some(id) ==> after@.len() == before@.len(),
        forall|k: int| 0 <= k < before@.len() ==> *(#[trigger] after@[k]) == *before@[k],
        craft.parts@.len() == 0 ==> before@.len() == 0,
{
    let wanted = |part: PartInstance| part.parent == Some(id);
    let n = craft.parts@.len() as int;
    lemma_filter_step(longer.parts@, wanted, n);
    assert(longer.parts@.take(n) =~= craft.parts@);
    assert(longer.parts@.take(n + 1) =~= longer.parts@);
    let a = before@.map_values(|part: &PartInstance| *part);
    let b = after@.map_values(|part: &PartInstance| *part);
    assert(a == craft.parts@.filter(wanted));
    assert(b == longer.parts@.filter(wanted));
    assert(a.len() == before@.len() && b.len() == after@.len());
    assert forall|k: int| 0 <= k < before@.len() implies *(#[trigger] after@[k]) == *before@[k] by {
        assert(b[k] == *after@[k]);
        assert(a[k] == *before@[k]);
    }
    if part.parent == Some(id) {
        assert(b.last() == *after@.last());
    }
    lemma_filter_keeps_the_first(craft.parts@, wanted);
}

/// What a craft carries is told by the kinds of its parts.
pub proof fn law_craft_carries_its_parts(
    craft: &CraftBlueprint,
    catalog: &PartCatalog,
    command: bool,
    engine: bool,
    parachute: bool,
    ids: BTreeSet<u64>,
    i: int,
)
    requires
        call_ensures(carries_command, (&craft.parts, catalog), command),
        call_ensures(carries_engine, (&craft.parts, catalog), engine),
        call_ensures(carries_parachute, (&craft.parts, catalog), parachute),
        call_ensures(part_ids, (&craft.parts,), ids),
        0 <= i < craft.parts@.len(),
        catalog@.contains_key(craft.parts@[i].definition_id@),
    ensures
        ids@.contains(craft.parts@[i].instance_id),
        catalog@[craft.parts@[i].definition_id@].module is Command ==> command,
        catalog@[craft.parts@[i].definition_id@].module is LiquidEngine ==> engine,
        catalog@[craft.parts@[i].definition_id@].module is SolidEngine ==> engine,
        catalog@[craft.parts@[i].definition_id@].module is Parachute ==> parachute,
        command ==> exists|k: int|
            0 <= k < craft.parts@.len() && catalog@.contains_key(
                (#[trigger] craft.parts@[k]).definition_id@,
            ) && catalog@[craft.parts@[k].definition_id@].module is Command,
        engine ==> exists|k: int|
            0 <= k < craft.parts@.len() && catalog@.contains_key(
                (#[trigger] craft.parts@[k]).definition_id@,
            ) && (catalog@[craft.parts@[k].definition_id@].module is LiquidEngine
                || catalog@[craft.parts@[k].definition_id@].module is SolidEngine),
        parachute ==> exists|k: int|
            0 <= k < craft.parts@.len() && catalog@.contains_key(
                (#[trigger] craft.parts@[k]).definition_id@,
            ) && catalog@[craft.parts@[k].definition_id@].module is Parachute,
{
}

/// How many faults the parts have: each is of a known kind, and hangs on a part of the craft
/// if on any.
pub open spec fn fault_count(
    parts: Seq<PartInstance>,
    catalog: Map<Seq<char>, DefinitionView>,
    n: int,
) -> int
    decreases n,
{
    if n <= 0 {
        0
    } else {
        fault_count(parts, catalog, n - 1) + (if catalog.contains_key(
            parts[n - 1].definition_id@,
        ) {
            0int
        } else {
            1
        }) + (if parts[n - 1].parent is Some && !exists|k: int|
            0 <= k < parts.len() && (#[trigger] parts[k]).instance_id == parts[n - 1].parent->0 {
            1int
        } else {
            0
        })
    }
}

proof fn lemma_faults_are_counted(
    parts: Seq<PartInstance>,
    catalog: Map<Seq<char>, DefinitionView>,
    n: int,
)
    requires
        0 <= n <= parts.len(),
    ensures
        issues_of_first(parts, catalog, n).len() == fault_count(parts, catalog, n),
    decreases n,
{
    if n > 0 {
        lemma_faults_are_counted(parts, catalog, n - 1);
    }
}

/// The launch check of a craft with parts names every fault once: too many parts, more or
/// fewer roots than one, each part of unknown kind and each that hangs on none of the craft,
/// then what the craft lacks, a pod, an engine or a parachute.
pub proof fn law_launch_check_names_every_fault(
    craft: &CraftBlueprint,
    catalog: &PartCatalog,
    r: Vec<ValidationIssue>,
    command: bool,
    engine: bool,
    parachute: bool,
)
    requires
        call_ensures(CraftBlueprint::validate, (craft, catalog), r),
        call_ensures(carries_command, (&craft.parts, catalog), command),
        call_ensures(carries_engine, (&craft.parts, catalog), engine),
        call_ensures(carries_parachute, (&craft.parts, catalog), parachute),
    ensures
        craft.parts@.len() == 0 ==> r@.len() == 1 && r@[0]@ == IssueView::Error(
            "The vehicle has no parts"@,
        ),
        craft.parts@.len() > 0 ==> {
            let many = craft.parts@.len() > 128;
            let one_root = roots(craft.parts@).len() == 1;
            let faults = fault_count(craft.parts@, catalog@, craft.parts@.len() as int);
            let a = if many {
                1int
            } else {
                0
            };
            let b = if one_root {
                0int
            } else {
                1
            };
            let d = if command {
                0int
            } else {
                1
            };
            let e = if engine {
                0int
            } else {
                1
            };
            let f = if parachute {
                0int
            } else {
                1
            };
            &&& r@.len() == a + b + faults + d + e + f
            &&& many ==> r@[0]@ == IssueView::Error("Vehicle exceeds the 128-part limit"@)
            &&& !one_root ==> r@[a]@ == IssueView::Error("Vehicle must have exactly one root part"@)
            &&& !command ==> r@[a + b + faults]@ == IssueView::Error(
                "Add a command pod before launch"@,
            )
            &&& !engine ==> r@[a + b + faults + d]@ == IssueView::Warning(
                "This craft has no engine"@,
            )
            &&& !parachute ==> r@.last()@ == IssueView::Warning("No parachute is installed"@)
        },
{
    let parts = craft.parts@;
    let n = parts.len() as int;
    lemma_faults_are_counted(parts, catalog@, n);
    let issues = issues_view(r@);
    assert(issues == validation(parts, catalog@));
    assert(issues.len() == r@.len());
    assert forall|k: int| 0 <= k < r@.len() implies (#[trigger] r@[k])@ == issues[k] by {}
}

/// A part of unknown kind and one that hangs on none of the craft are named in the check.
pub proof fn law_faulty_parts_are_named(
    parts: Seq<PartInstance>,
    catalog: Map<Seq<char>, DefinitionView>,
    i: int,
    n: int,
)
    requires
        0 <= i < n <= parts.len(),
    ensures
        !catalog.contains_key(parts[i].definition_id@) ==> issues_of_first(
            parts,
            catalog,
            n,
        ).contains(IssueView::Error("Unknown part "@ + parts[i].definition_id@)),
        parts[i].parent is Some && (forall|k: int|
            0 <= k < parts.len() ==> (#[trigger] parts[k]).instance_id != parts[i].parent->0)
            ==> issues_of_first(parts, catalog, n).contains(
            IssueView::Error(
                "Part "@ + digits(parts[i].instance_id as nat) + " has a missing parent"@,
            ),
        ),
    decreases n,
{
    let earlier = issues_of_first(parts, catalog, n - 1);
    let own = part_issues(parts, catalog, parts[n - 1]);
    let all = issues_of_first(parts, catalog, n);
    assert(all == earlier + own);
    assert forall|issue: IssueView| earlier.contains(issue) implies #[trigger] all.contains(
        issue,
    ) by {
        let k = choose|k: int| 0 <= k < earlier.len() && earlier[k] == issue;
        assert(all[k] == issue);
    }
    if i < n - 1 {
        law_faulty_parts_are_named(parts, catalog, i, n - 1);
    } else {
        if own.len() > 0 {
            assert(all[earlier.len() as int] == own[0]);
            assert(all[all.len() - 1] == own[own.len() - 1]);
        }
    }
}

/// The number for the next part is one above the highest.
pub proof fn law_next_id_is_one_above(craft: &CraftBlueprint, r: u64, i: int)
    requires
        call_ensures(CraftBlueprint::next_id, (craft,), r),
        0 <= i < craft.parts@.len(),
    ensures
        craft.parts@[i].instance_id < r,
        exists|k: int|
            0 <= k < craft.parts@.len() && (#[trigger] craft.parts@[k]).instance_id + 1 == r,
{
    let k = choose|k: int|
        0 <= k < craft.parts@.len() && (#[trigger] craft.parts@[k]).instance_id == (r - 1) as u64;
    assert(craft.parts@[k].instance_id + 1 == r);
}

/// The craft that comes with the game is a stack under one pod with its boosters and fins in
/// mirrored pairs: the parts are numbered in order, each hangs on an earlier one, the stack
/// stands straight, and of every pair the two differ in nothing but the side.
pub proof fn law_stock_craft_is_symmetric(craft: CraftBlueprint, k: int)
    requires
        call_ensures(stock_craft, (), craft),
        0 <= k < 15,
    ensures
        craft.parts@.len() == 15,
        craft.parts@[k].instance_id == k + 1,
        k == 0 <==> craft.parts@[k].parent is None,
        k > 0 ==> 1 <= craft.parts@[k].parent->0 <= k,
        craft.parts@[k].local_position@[2].bits == 0,
        k < 9 ==> craft.parts@[k].local_position@[0].bits == 0,
        craft.parts@[k].local_rotation@ == upright(),
        is_mirrored(craft.parts@[9], craft.parts@[11]) && craft.parts@[9].parent == Some(8u64),
        is_mirrored(craft.parts@[10], craft.parts@[12]),
        craft.parts@[10].parent == Some(10u64) && craft.parts@[12].parent == Some(12u64),
        is_mirrored(craft.parts@[13], craft.parts@[14]) && craft.parts@[13].parent == Some(8u64),
        2 <= k < 7 ==> craft.parts@[k].local_position@[1].bits
            > craft.parts@[k + 1].local_position@[1].bits,
        craft.parts@[1].local_position@[1].bits > craft.parts@[0].local_position@[1].bits
            > craft.parts@[2].local_position@[1].bits,
        craft.stages@.len() == 4,
        craft.stages@[0].actions@ == seq![
            StageAction::ActivateEngine(9),
            StageAction::ActivateEngine(11),
            StageAction::ActivateEngine(13),
        ],
        craft.stages@[1].actions@ == seq![StageAction::Decouple(10), StageAction::Decouple(12)],
        craft.stages@[2].actions@ == seq![StageAction::Decouple(7), StageAction::ActivateEngine(6)],
        craft.stages@[3].actions@ == seq![StageAction::DeployParachute(2)],
{
}

/// Whether the two are of one kind, at one height, on opposite sides.
pub open spec fn is_mirrored(one: PartInstance, other: PartInstance) -> bool {
    &&& one.definition_id@ == other.definition_id@
    &&& one.local_position@[1] == other.local_position@[1]
    &&& one.local_position@[2] == other.local_position@[2]
    &&& other.local_position@[0].bits == one.local_position@[0].bits + 0x8000_0000
}

} // verus!
