//! What the portal's `/services/` API answers.

use vstd::prelude::*;

use crate::lists;
use crate::reading::Reading;
use crate::serial_map::SerialMap;
use crate::text;
use crate::text::{blank, replaced, same_ignoring_case, trimmed};

verus! {

/// One node of the site's logical structure. Every node says by its type what
/// it is: `INVERTER`, `STRING`, `OPTIMIZER`, or a `FOLDER` that only groups.
#[derive(Debug, Default)]
pub struct LayoutNodeV2 {
    /// Identifier that every node has.
    pub uuid: String,
    /// Serial number of a device.
    pub serial: String,
    /// Name for people.
    pub name: String,
    /// What the node is.
    pub node_type: String,
    /// Further properties.
    pub properties: NodeProperties,
    /// The nodes below.
    pub children: Vec<LayoutNodeV2>,
    /// The tree, where the answer wraps it in an envelope.
    pub site_structure: Option<Box<LayoutNodeV2>>,
}

/// Properties of a node.
#[derive(Debug, Default)]
pub struct NodeProperties {
    /// Second choice for the serial number.
    pub identifier: String,
    /// Status of a device.
    pub status: String,
}

impl LayoutNodeV2 {
    /// The root of the tree, which an envelope may hold.
    pub open spec fn tree(self) -> LayoutNodeV2 {
        match self.site_structure {
            Some(inner) => *inner,
            None => self,
        }
    }

    /// True of a node of a type, up to case.
    pub open spec fn has_type(self, want: Seq<char>) -> bool {
        text::equal_ignoring_case(self.node_type@, want)
    }

    /// The nodes of a type that a child stands for: itself, or, where it is a
    /// folder, those of its children that have the type.
    pub open spec fn picked(self, want: Seq<char>) -> Seq<LayoutNodeV2> {
        if self.has_type(want) {
            seq![self]
        } else if self.has_type("FOLDER"@) {
            lists::gather(
                self.children@,
                |grandchild: LayoutNodeV2|
                    if grandchild.has_type(want) {
                        seq![grandchild]
                    } else {
                        Seq::empty()
                    },
            )
        } else {
            Seq::empty()
        }
    }

    /// The nodes of a type directly below, folders looked through.
    pub open spec fn below(self, want: Seq<char>) -> Seq<LayoutNodeV2> {
        lists::gather(self.children@, |child: LayoutNodeV2| child.picked(want))
    }

    /// The serial number: the first of serial, identifier and UUID that is not
    /// blank.
    pub open spec fn device_serial(self) -> Seq<char> {
        if !text::is_blank(self.serial@) {
            self.serial@
        } else if !text::is_blank(self.properties.identifier@) {
            self.properties.identifier@
        } else if !text::is_blank(self.uuid@) {
            self.uuid@
        } else {
            Seq::empty()
        }
    }

    /// The name, or the serial number where the name is blank.
    pub open spec fn display_name(self) -> Seq<char> {
        if text::is_blank(self.name@) {
            self.device_serial()
        } else {
            self.name@
        }
    }

    /// The optimizer nodes of an inverter: those of its strings, or, where it
    /// has no strings, those directly below it.
    pub open spec fn optimizers(self) -> Seq<LayoutNodeV2> {
        let strings = self.below("STRING"@);
        if strings.len() == 0 {
            self.below("OPTIMIZER"@)
        } else {
            lists::gather(strings, |string: LayoutNodeV2| string.below("OPTIMIZER"@))
        }
    }

    /// The root of the tree, which an envelope may hold.
    pub fn root(&self) -> (r: &LayoutNodeV2)
        ensures
            *r == self.tree(),
    {
        match &self.site_structure {
            Some(inner) => inner,
            None => self,
        }
    }

    /// Tests the type of a node, up to case.
    pub fn is_type(&self, want: &str) -> (r: bool)
        ensures
            r == self.has_type(want@),
    {
        same_ignoring_case(self.node_type.as_str(), want)
    }

    /// Collects the nodes of a type directly below, folders looked through.
    pub fn typed_children(&self, want: &str) -> (r: Vec<&LayoutNodeV2>)
        ensures
            nodes(r@) == self.below(want@),
    {
        let ghost pick = |child: LayoutNodeV2| child.picked(want@);
        let ghost keep = |grandchild: LayoutNodeV2|
            if grandchild.has_type(want@) {
                seq![grandchild]
            } else {
                Seq::empty()
            };
        let mut out: Vec<&LayoutNodeV2> = Vec::new();
        let mut i: usize = 0;
        assert(nodes(out@) =~= lists::gather(self.children@.take(0), pick));
        while i < self.children.len()
            invariant
                i <= self.children.len(),
                pick == (|child: LayoutNodeV2| child.picked(want@)),
                keep == (|grandchild: LayoutNodeV2|
                    if grandchild.has_type(want@) {
                        seq![grandchild]
                    } else {
                        Seq::empty()
                    }),
                nodes(out@) == lists::gather(self.children@.take(i as int), pick),
            decreases self.children.len() - i,
        {
            let child = &self.children[i];
            let ghost before = nodes(out@);
            if child.is_type(want) {
                out.push(child);
                assert(nodes(out@) =~= before + seq![*child]);
            } else if child.is_type("FOLDER") {
                let mut j: usize = 0;
                assert(nodes(out@) =~= before + lists::gather(child.children@.take(0), keep));
                while j < child.children.len()
                    invariant
                        j <= child.children.len(),
                        keep == (|grandchild: LayoutNodeV2|
                            if grandchild.has_type(want@) {
                                seq![grandchild]
                            } else {
                                Seq::empty()
                            }),
                        nodes(out@) == before + lists::gather(
                            child.children@.take(j as int),
                            keep,
                        ),
                    decreases child.children.len() - j,
                {
                    let grandchild = &child.children[j];
                    let ghost so_far = nodes(out@);
                    if grandchild.is_type(want) {
                        out.push(grandchild);
                        assert(nodes(out@) =~= so_far + seq![*grandchild]);
                    }
                    proof {
                        lists::lemma_gather_step(child.children@, keep, j as int);
                        assert(nodes(out@) =~= so_far + keep(*grandchild));
                    }
                    assert(nodes(out@) =~= before + lists::gather(
                        child.children@.take(j + 1),
                        keep,
                    ));
                    j += 1;
                }
                assert(child.children@.take(j as int) =~= child.children@);
            }
            proof {
                lists::lemma_gather_step(self.children@, pick, i as int);
                assert(nodes(out@) =~= before + pick(*child));
            }
            i += 1;
        }
        assert(self.children@.take(i as int) =~= self.children@);
        out
    }

    /// The serial number: the first of serial, identifier and UUID that is not
    /// blank.
    pub fn best_serial(&self) -> (r: String)
        ensures
            r@ == self.device_serial(),
    {
        if !blank(self.serial.as_str()) {
            self.serial.clone()
        } else if !blank(self.properties.identifier.as_str()) {
            self.properties.identifier.clone()
        } else if !blank(self.uuid.as_str()) {
            self.uuid.clone()
        } else {
            String::new()
        }
    }

    fn shown_name(&self) -> (r: String)
        ensures
            r@ == self.display_name(),
    {
        if blank(self.name.as_str()) {
            self.best_serial()
        } else {
            self.name.clone()
        }
    }
}

/// A vector of references as a sequence of nodes.
pub open spec fn nodes(v: Seq<&LayoutNodeV2>) -> Seq<LayoutNodeV2> {
    Seq::new(v.len(), |i: int| *v[i])
}

/// Live telemetry of the optimizers, by serial number. One that is in the
/// layout but inactive or replaced has no entry.
#[derive(Debug)]
pub struct OptimizersInfoResponse {
    /// Telemetry by serial number.
    pub serial_to_live_data: SerialMap<LiveData>,
}

/// Live telemetry of one optimizer.
#[derive(Debug, Clone)]
pub struct LiveData {
    /// Power in watts.
    pub power_w: Option<Reading>,
    /// Current in amperes.
    pub current_a: Option<Reading>,
    /// Voltage of the module, in volts.
    pub voltage_v: Option<Reading>,
    /// Voltage at the output of the optimizer, in volts.
    pub optimizer_voltage_v: Option<Reading>,
    /// When the values were measured. Empty for an inactive optimizer.
    pub last_measurement: String,
}

impl LiveData {
    /// True where at least one electrical value was reported.
    pub open spec fn measured(self) -> bool {
        self.power_w is Some || self.current_a is Some || self.voltage_v is Some
            || self.optimizer_voltage_v is Some
    }

    /// Tests whether at least one electrical value was reported.
    pub fn has_measurements(&self) -> (r: bool)
        ensures
            r == self.measured(),
    {
        self.power_w.is_some() || self.current_a.is_some() || self.voltage_v.is_some()
            || self.optimizer_voltage_v.is_some()
    }
}

/// The energy of the optimizers that a query named, as one number.
#[derive(Debug, Clone, Copy)]
pub struct EnergyGraphResponse {
    /// Lifetime energy in watt hours.
    pub total_energy: Option<Reading>,
}

/// A JSON value where a number is expected.
#[derive(Debug, Clone)]
pub enum JsonScalar {
    /// `null`, or no value at all.
    Null,
    /// A number, where a double can hold it.
    Number(Option<Reading>),
    /// A string.
    Text(String),
    /// Anything else.
    Other,
}

/// What may come of reading a numeric text: what `parse` gives for the trimmed
/// text, or, where that is nothing, what it gives with decimal commas written
/// as points.
pub open spec fn number_outcome<F: Fn(&str) -> Option<Reading>>(
    parse: F,
    s: Seq<char>,
    r: Option<Reading>,
) -> bool {
    exists|plain: &str, first: Option<Reading>| #[trigger]
        parse.ensures((plain,), first) && plain@ == text::trim(s) && if first is Some {
            r == first
        } else {
            exists|pointed: &str| #[trigger]
                parse.ensures((pointed,), r) && pointed@ == text::with_replaced(
                    text::trim(s),
                    ',',
                    '.',
                )
        }
}

/// Reads a numeric text, with a decimal point or a decimal comma.
pub fn parse_number<F: Fn(&str) -> Option<Reading>>(s: &str, parse: F) -> (r: Option<Reading>)
    requires
        forall|t: &str| #[trigger] parse.requires((t,)),
    ensures
        number_outcome(parse, s@, r),
{
    let plain = trimmed(s);
    let first = parse(plain);
    if first.is_some() {
        return first;
    }
    proof {
        reveal_strlit(".");
    }
    let pointed = replaced(plain, ',', ".");
    parse(pointed.as_str())
}

/// Reads a value that is a number, or a numeric text; anything else counts as
/// absent.
pub fn flexible_f64<F: Fn(&str) -> Option<Reading>>(value: &JsonScalar, parse: F) -> (r: Option<
    Reading,
>)
    requires
        forall|t: &str| #[trigger] parse.requires((t,)),
    ensures
        match *value {
            JsonScalar::Number(n) => r == n,
            JsonScalar::Text(s) => number_outcome(parse, s@, r),
            JsonScalar::Null | JsonScalar::Other => r is None,
        },
{
    match value {
        JsonScalar::Number(n) => *n,
        JsonScalar::Text(s) => parse_number(s.as_str(), parse),
        JsonScalar::Null | JsonScalar::Other => None,
    }
}

/// An optimizer of the site.
#[derive(Debug, Clone)]
pub struct FlatOptimizer {
    /// Serial number.
    pub serial_number: String,
    /// Name for people.
    pub display_name: String,
    /// Serial number of the inverter.
    pub inverter_serial: String,
    /// Name of the inverter.
    pub inverter_display_name: String,
    /// Status in the layout, such as `ACTIVE` or `REPLACED`.
    pub status: String,
}

/// An optimizer of the site, in texts.
#[verifier::ext_equal]
pub struct FlatOptimizerView {
    /// Serial number.
    pub serial_number: Seq<char>,
    /// Name for people.
    pub display_name: Seq<char>,
    /// Serial number of the inverter.
    pub inverter_serial: Seq<char>,
    /// Name of the inverter.
    pub inverter_display_name: Seq<char>,
    /// Status in the layout.
    pub status: Seq<char>,
}

impl View for FlatOptimizer {
    type V = FlatOptimizerView;

    open spec fn view(&self) -> FlatOptimizerView {
        FlatOptimizerView {
            serial_number: self.serial_number@,
            display_name: self.display_name@,
            inverter_serial: self.inverter_serial@,
            inverter_display_name: self.inverter_display_name@,
            status: self.status@,
        }
    }
}

impl FlatOptimizerView {
    /// True unless the layout marks the optimizer as gone: an empty status, and
    /// one that is not known, counts as active.
    pub open spec fn active(self) -> bool {
        !(text::equal_ignoring_case(text::trim(self.status), "REPLACED"@)
            || text::equal_ignoring_case(text::trim(self.status), "INACTIVE"@))
    }
}

impl FlatOptimizer {
    /// Tests whether the optimizer is active: it is unless the layout marks it
    /// as gone.
    pub fn is_active(&self) -> (r: bool)
        ensures
            r == self@.active(),
    {
        let s = trimmed(self.status.as_str());
        !(same_ignoring_case(s, "REPLACED") || same_ignoring_case(s, "INACTIVE"))
    }
}

/// An optimizer without a status is active.
pub proof fn lemma_blank_status_active(opt: FlatOptimizerView)
    requires
        text::is_blank(opt.status),
    ensures
        opt.active(),
{
    reveal_strlit("REPLACED");
    reveal_strlit("INACTIVE");
    text::lemma_blank_trims_to_nothing(opt.status);
}

/// The optimizers of a vector, in texts.
pub open spec fn flat_views(v: Seq<FlatOptimizer>) -> Seq<FlatOptimizerView> {
    Seq::new(v.len(), |i: int| v[i]@)
}

/// An optimizer node of an inverter, as a list entry.
pub open spec fn flat_entry(opt: LayoutNodeV2, inverter: LayoutNodeV2) -> FlatOptimizerView {
    FlatOptimizerView {
        serial_number: opt.device_serial(),
        display_name: opt.display_name(),
        inverter_serial: inverter.device_serial(),
        inverter_display_name: inverter.display_name(),
        status: opt.properties.status@,
    }
}

/// The optimizers of an inverter, as list entries.
pub open spec fn inverter_entries(inverter: LayoutNodeV2) -> Seq<FlatOptimizerView> {
    inverter.optimizers().map_values(|opt: LayoutNodeV2| flat_entry(opt, inverter))
}

/// The optimizers of a site: those of every inverter, in the order of the tree.
pub open spec fn site_entries(layout: LayoutNodeV2) -> Seq<FlatOptimizerView> {
    lists::gather(
        layout.tree().below("INVERTER"@),
        |inverter: LayoutNodeV2| inverter_entries(inverter),
    )
}

fn flat_optimizer(opt: &LayoutNodeV2, inverter: &LayoutNodeV2) -> (r: FlatOptimizer)
    ensures
        r@ == flat_entry(*opt, *inverter),
{
    FlatOptimizer {
        serial_number: opt.best_serial(),
        display_name: opt.shown_name(),
        inverter_serial: inverter.best_serial(),
        inverter_display_name: inverter.shown_name(),
        status: opt.properties.status.clone(),
    }
}

/// Appends list entries for the optimizer nodes of an inverter.
fn append_optimizers(out: &mut Vec<FlatOptimizer>, opts: &Vec<&LayoutNodeV2>, inverter: &LayoutNodeV2)
    ensures
        flat_views(final(out)@) == flat_views(old(out)@) + nodes(opts@).map_values(
            |opt: LayoutNodeV2| flat_entry(opt, *inverter),
        ),
{
    let ghost f = |opt: LayoutNodeV2| flat_entry(opt, *inverter);
    let ghost before = flat_views(out@);
    let mut i: usize = 0;
    assert(flat_views(out@) =~= before + nodes(opts@).map_values(f).take(0));
    while i < opts.len()
        invariant
            i <= opts.len(),
            f == (|opt: LayoutNodeV2| flat_entry(opt, *inverter)),
            flat_views(out@) == before + nodes(opts@).map_values(f).take(i as int),
        decreases opts.len() - i,
    {
        let ghost so_far = flat_views(out@);
        let entry = flat_optimizer(opts[i], inverter);
        out.push(entry);
        assert(flat_views(out@) =~= so_far.push(entry@));
        assert(nodes(opts@).map_values(f).take(i + 1) =~= nodes(opts@).map_values(f).take(
            i as int,
        ).push(entry@));
        assert(flat_views(out@) =~= before + nodes(opts@).map_values(f).take(i + 1));
        i += 1;
    }
    assert(nodes(opts@).map_values(f).take(i as int) =~= nodes(opts@).map_values(f));
}

/// Collects the optimizer nodes of an inverter.
fn optimizers_of(inverter: &LayoutNodeV2) -> (r: Vec<&LayoutNodeV2>)
    ensures
        nodes(r@) == inverter.optimizers(),
{
    let strings = inverter.typed_children("STRING");
    let ghost all = inverter.below("STRING"@);
    if strings.len() == 0 {
        assert(all.len() == 0);
        return inverter.typed_children("OPTIMIZER");
    }
    let ghost f = |string: LayoutNodeV2| string.below("OPTIMIZER"@);
    let mut out: Vec<&LayoutNodeV2> = Vec::new();
    let mut i: usize = 0;
    assert(nodes(out@) =~= lists::gather(all.take(0), f));
    while i < strings.len()
        invariant
            i <= strings.len(),
            all == nodes(strings@),
            f == (|string: LayoutNodeV2| string.below("OPTIMIZER"@)),
            nodes(out@) == lists::gather(all.take(i as int), f),
        decreases strings.len() - i,
    {
        let ghost before = nodes(out@);
        let mut opts = strings[i].typed_children("OPTIMIZER");
        let ghost added = nodes(opts@);
        out.append(&mut opts);
        assert(nodes(out@) =~= before + added);
        proof {
            assert(all[i as int] == *strings@[i as int]);
            lists::lemma_gather_step(all, f, i as int);
        }
        i += 1;
    }
    assert(all.take(i as int) =~= all);
    out
}

/// Lists the optimizers of a site. Each device level may be wrapped in a
/// folder, and an inverter without a string level is tolerated.
pub fn flatten_layout_v2(resp: &LayoutNodeV2) -> (r: Vec<FlatOptimizer>)
    ensures
        flat_views(r@) == site_entries(*resp),
{
    let inverters = resp.root().typed_children("INVERTER");
    let ghost all = resp.tree().below("INVERTER"@);
    let ghost f = |inverter: LayoutNodeV2| inverter_entries(inverter);
    let mut out: Vec<FlatOptimizer> = Vec::new();
    let mut i: usize = 0;
    assert(flat_views(out@) =~= lists::gather(all.take(0), f));
    while i < inverters.len()
        invariant
            i <= inverters.len(),
            all == nodes(inverters@),
            f == (|inverter: LayoutNodeV2| inverter_entries(inverter)),
            flat_views(out@) == lists::gather(all.take(i as int), f),
        decreases inverters.len() - i,
    {
        let inverter = inverters[i];
        let opts = optimizers_of(inverter);
        append_optimizers(&mut out, &opts, inverter);
        proof {
            assert(all[i as int] == *inverter);
            lists::lemma_gather_step(all, f, i as int);
        }
        i += 1;
    }
    assert(all.take(i as int) =~= all);
    out
}

/// Every optimizer node of every inverter is listed, under its inverter.
pub proof fn lemma_every_optimizer_listed(layout: LayoutNodeV2, i: int, k: int)
    requires
        0 <= i < layout.tree().below("INVERTER"@).len(),
        0 <= k < layout.tree().below("INVERTER"@)[i].optimizers().len(),
    ensures
        ({
            let inverter = layout.tree().below("INVERTER"@)[i];
            site_entries(layout).contains(flat_entry(inverter.optimizers()[k], inverter))
        }),
{
    let inverter = layout.tree().below("INVERTER"@)[i];
    let f = |inverter: LayoutNodeV2| inverter_entries(inverter);
    let entry = flat_entry(inverter.optimizers()[k], inverter);
    assert(inverter_entries(inverter)[k] == entry);
    assert(f(inverter).contains(entry));
    lists::lemma_gather_has(layout.tree().below("INVERTER"@), f, i, entry);
}

/// Nothing else is listed: every entry is an optimizer node of an inverter.
pub proof fn lemma_only_optimizers_listed(layout: LayoutNodeV2, entry: FlatOptimizerView) -> (r: (
    int,
    int,
))
    requires
        site_entries(layout).contains(entry),
    ensures
        0 <= r.0 < layout.tree().below("INVERTER"@).len(),
        0 <= r.1 < layout.tree().below("INVERTER"@)[r.0].optimizers().len(),
        ({
            let inverter = layout.tree().below("INVERTER"@)[r.0];
            entry == flat_entry(inverter.optimizers()[r.1], inverter)
        }),
{
    let inverters = layout.tree().below("INVERTER"@);
    let f = |inverter: LayoutNodeV2| inverter_entries(inverter);
    let i = lists::lemma_gather_from(inverters, f, entry);
    let entries = inverter_entries(inverters[i]);
    let k = choose|k: int| 0 <= k < entries.len() && entries[k] == entry;
    (i, k)
}

/// An envelope makes no difference: a wrapped tree lists what the tree itself
/// lists.
pub proof fn lemma_envelope(layout: LayoutNodeV2)
    requires
        layout.tree().site_structure is None,
    ensures
        site_entries(layout) == site_entries(layout.tree()),
{
}

/// True where two nodes stand for the same device.
pub open spec fn same_device(a: LayoutNodeV2, b: LayoutNodeV2) -> bool {
    &&& a.node_type@ == b.node_type@
    &&& a.serial@ == b.serial@
    &&& a.name@ == b.name@
    &&& a.uuid@ == b.uuid@
    &&& a.properties.identifier@ == b.properties.identifier@
    &&& a.properties.status@ == b.properties.status@
}

/// True where the second of two trees is the first with some groups put round
/// children: at the root, and at any node below it that is no folder itself,
/// the children, if no folder is among them, may stand in one folder.
pub open spec fn regrouped(a: LayoutNodeV2, b: LayoutNodeV2, may_group: bool) -> bool
    decreases a,
{
    &&& same_device(a, b)
    &&& {
        ||| {
            &&& a.children@.len() == b.children@.len()
            &&& forall|i: int|
                0 <= i < a.children@.len() ==> regrouped(
                    #[trigger] a.children@[i],
                    b.children@[i],
                    !a.children@[i].has_type("FOLDER"@),
                )
        }
        ||| {
            &&& may_group
            &&& b.children@.len() == 1
            &&& b.children@[0].has_type("FOLDER"@)
            &&& a.children@.len() == b.children@[0].children@.len()
            &&& forall|i: int|
                0 <= i < a.children@.len() ==> {
                    &&& !(#[trigger] a.children@[i]).has_type("FOLDER"@)
                    &&& regrouped(a.children@[i], b.children@[0].children@[i], true)
                }
        }
    }
}

/// A tree to which no group is added is what it was.
pub proof fn lemma_regrouped_nowhere(node: LayoutNodeV2, may_group: bool)
    ensures
        regrouped(node, node, may_group),
    decreases node,
{
    assert forall|i: int| 0 <= i < node.children@.len() implies regrouped(
        #[trigger] node.children@[i],
        node.children@[i],
        !node.children@[i].has_type("FOLDER"@),
    ) by {
        lemma_regrouped_nowhere(node.children@[i], !node.children@[i].has_type("FOLDER"@));
    }
}

/// The nodes of a type below a node are the same devices, however they are
/// grouped.
proof fn lemma_below_regrouped(
    a: LayoutNodeV2,
    b: LayoutNodeV2,
    may_group: bool,
    want: Seq<char>,
)
    requires
        regrouped(a, b, may_group),
        !text::equal_ignoring_case("FOLDER"@, want),
    ensures
        lists::alike(
            a.below(want),
            b.below(want),
            |x: LayoutNodeV2, y: LayoutNodeV2| regrouped(x, y, true),
        ),
{
    let rel = |x: LayoutNodeV2, y: LayoutNodeV2| regrouped(x, y, true);
    let pick = |child: LayoutNodeV2| child.picked(want);
    let keep = |grandchild: LayoutNodeV2|
        if grandchild.has_type(want) {
            seq![grandchild]
        } else {
            Seq::empty()
        };
    reveal_with_fuel(regrouped, 3);
    let s = a.children@;
    let t = b.children@;
    if s.len() == t.len() && forall|i: int|
        0 <= i < s.len() ==> regrouped(#[trigger] s[i], t[i], !s[i].has_type("FOLDER"@)) {
        assert forall|i: int| 0 <= i < s.len() implies lists::alike(
            pick(#[trigger] s[i]),
            pick(t[i]),
            rel,
        ) by {
            let x = s[i];
            let y = t[i];
            if x.has_type(want) {
                lemma_no_folder(x, want);
            } else if x.has_type("FOLDER"@) {
                let u = x.children@;
                let v = y.children@;
                assert forall|k: int| 0 <= k < u.len() implies lists::alike(
                    keep(#[trigger] u[k]),
                    keep(v[k]),
                    rel,
                ) by {
                    if u[k].has_type(want) {
                        lemma_no_folder(u[k], want);
                    }
                }
                lists::lemma_gather_alike(u, keep, v, keep, rel);
            }
        }
        lists::lemma_gather_alike(s, pick, t, pick, rel);
    } else {
        let folder = t[0];
        let v = folder.children@;
        assert forall|i: int| 0 <= i < s.len() implies lists::alike(
            pick(#[trigger] s[i]),
            keep(v[i]),
            rel,
        ) by {
            assert(!s[i].has_type("FOLDER"@));
        }
        lists::lemma_gather_alike(s, pick, v, keep, rel);
        assert(!folder.has_type(want)) by {
            if folder.has_type(want) {
                lemma_no_folder(folder, want);
            }
        }
        assert(t =~= seq![folder]);
        reveal_with_fuel(lists::gather, 2);
        assert(t.drop_last() =~= Seq::<LayoutNodeV2>::empty());
        assert(lists::gather(t, pick) =~= pick(folder));
        assert(pick(folder) == lists::gather(v, keep));
    }
}

/// A node of another type is no folder.
proof fn lemma_no_folder(node: LayoutNodeV2, want: Seq<char>)
    requires
        node.has_type(want),
        !text::equal_ignoring_case("FOLDER"@, want),
    ensures
        !node.has_type("FOLDER"@),
{
    if node.has_type("FOLDER"@) {
        let folder = "FOLDER"@;
        assert forall|i: int| 0 <= i < folder.len() implies text::ascii_lower(#[trigger] folder[i])
            == text::ascii_lower(want[i]) by {
            assert(text::ascii_lower(node.node_type@[i]) == text::ascii_lower(want[i]));
        }
    }
}

/// The list entries of an inverter are the same, however the nodes below it are
/// grouped.
proof fn lemma_inverter_regrouped(a: LayoutNodeV2, b: LayoutNodeV2)
    requires
        regrouped(a, b, true),
    ensures
        inverter_entries(a) == inverter_entries(b),
{
    let rel = |x: LayoutNodeV2, y: LayoutNodeV2| regrouped(x, y, true);
    lemma_device_types();
    lemma_below_regrouped(a, b, true, "STRING"@);
    lemma_below_regrouped(a, b, true, "OPTIMIZER"@);
    let strings = a.below("STRING"@);
    let others = b.below("STRING"@);
    let f = |string: LayoutNodeV2| string.below("OPTIMIZER"@);
    assert forall|i: int| 0 <= i < strings.len() implies lists::alike(
        f(#[trigger] strings[i]),
        f(others[i]),
        rel,
    ) by {
        assert(rel(strings[i], others[i]));
        lemma_below_regrouped(strings[i], others[i], true, "OPTIMIZER"@);
    }
    lists::lemma_gather_alike(strings, f, others, f, rel);
    assert(lists::alike(a.optimizers(), b.optimizers(), rel));
    assert forall|i: int| 0 <= i < a.optimizers().len() implies #[trigger] inverter_entries(a)[i]
        == inverter_entries(b)[i] by {
        assert(rel(a.optimizers()[i], b.optimizers()[i]));
    }
    assert(inverter_entries(a) =~= inverter_entries(b));
}

proof fn lemma_device_types()
    ensures
        !text::equal_ignoring_case("FOLDER"@, "INVERTER"@),
        !text::equal_ignoring_case("FOLDER"@, "STRING"@),
        !text::equal_ignoring_case("FOLDER"@, "OPTIMIZER"@),
{
    reveal_strlit("FOLDER");
    reveal_strlit("INVERTER");
    reveal_strlit("STRING");
    reveal_strlit("OPTIMIZER");
    assert(text::ascii_lower("FOLDER"@[0]) != text::ascii_lower("STRING"@[0]));
}

/// One folder round the children of the root makes no difference, where no
/// folder is among them.
pub proof fn lemma_folder_at_root(layout: LayoutNodeV2, grouped: LayoutNodeV2)
    requires
        same_device(layout.tree(), grouped.tree()),
        forall|i: int|
            0 <= i < layout.tree().children@.len() ==> !(
            #[trigger] layout.tree().children@[i]).has_type("FOLDER"@),
        grouped.tree().children@.len() == 1,
        grouped.tree().children@[0].has_type("FOLDER"@),
        grouped.tree().children@[0].children@ == layout.tree().children@,
    ensures
        site_entries(layout) == site_entries(grouped),
{
    let children = layout.tree().children@;
    assert forall|i: int| 0 <= i < children.len() implies regrouped(
        #[trigger] children[i],
        children[i],
        true,
    ) by {
        lemma_regrouped_nowhere(children[i], true);
    }
    lemma_folders(layout, grouped);
}

/// Groups make no difference, at any number of nodes and with an envelope or
/// without one: a tree lists what it lists without the folders that stand round
/// the children of its root, of an inverter or of a string.
pub proof fn lemma_folders(layout: LayoutNodeV2, grouped: LayoutNodeV2)
    requires
        regrouped(layout.tree(), grouped.tree(), true),
    ensures
        site_entries(layout) == site_entries(grouped),
{
    lemma_device_types();
    lemma_below_regrouped(layout.tree(), grouped.tree(), true, "INVERTER"@);
    let a = layout.tree().below("INVERTER"@);
    let b = grouped.tree().below("INVERTER"@);
    let rel = |x: LayoutNodeV2, y: LayoutNodeV2| regrouped(x, y, true);
    let same = |x: FlatOptimizerView, y: FlatOptimizerView| x == y;
    let f = |inverter: LayoutNodeV2| inverter_entries(inverter);
    assert forall|i: int| 0 <= i < a.len() implies lists::alike(
        f(#[trigger] a[i]),
        f(b[i]),
        same,
    ) by {
        assert(rel(a[i], b[i]));
        lemma_inverter_regrouped(a[i], b[i]);
    }
    lists::lemma_gather_alike(a, f, b, f, same);
    assert(site_entries(layout) =~= site_entries(grouped));
}

/// Energy of the site, as the dashboard sums it up.
#[derive(Debug, Clone, Copy)]
pub struct DashboardEnergyResponse {
    /// The totals over the queried time.
    pub summary: EnergySummary,
}

/// Totals over the queried time.
#[derive(Debug, Clone, Copy)]
pub struct EnergySummary {
    /// Where produced energy went.
    pub production_distribution: ProductionDistribution,
    /// Where consumed energy came from.
    pub consumption_distribution: ConsumptionDistribution,
}

/// Where produced energy went.
#[derive(Debug, Clone, Copy)]
pub struct ProductionDistribution {
    /// Energy charged into the battery, in watt hours.
    pub production_to_battery: Option<Reading>,
}

/// Where consumed energy came from.
#[derive(Debug, Clone, Copy)]
pub struct ConsumptionDistribution {
    /// Energy discharged from the battery, in watt hours.
    pub consumption_from_battery: Option<Reading>,
}

impl DashboardEnergyResponse {
    /// Energy charged into the battery, in watt hours.
    pub open spec fn charged(self) -> Option<Reading> {
        self.summary.production_distribution.production_to_battery
    }

    /// Energy discharged from the battery, in watt hours.
    pub open spec fn discharged(self) -> Option<Reading> {
        self.summary.consumption_distribution.consumption_from_battery
    }

    /// Energy charged into the battery, in watt hours.
    pub fn charged_watt_hours(&self) -> (r: Option<Reading>)
        ensures
            r == self.charged(),
    {
        self.summary.production_distribution.production_to_battery
    }

    /// Energy discharged from the battery, in watt hours.
    pub fn discharged_watt_hours(&self) -> (r: Option<Reading>)
        ensures
            r == self.discharged(),
    {
        self.summary.consumption_distribution.consumption_from_battery
    }
}

/// True of a node of a type that stands below another: among its children, or in
/// a folder among them.
pub open spec fn stands_below(parent: LayoutNodeV2, node: LayoutNodeV2, want: Seq<char>) -> bool {
    &&& text::equal_ignoring_case(node.node_type@, want)
    &&& {
        ||| exists|i: int| 0 <= i < parent.children@.len() && #[trigger] parent.children@[i] == node
        ||| exists|i: int, k: int|
            {
                &&& 0 <= i < parent.children@.len()
                &&& text::equal_ignoring_case(parent.children@[i].node_type@, "FOLDER"@)
                &&& 0 <= k < parent.children@[i].children@.len()
                &&& #[trigger] parent.children@[i].children@[k] == node
            }
    }
}

proof fn lemma_found_below(parent: LayoutNodeV2, node: LayoutNodeV2, want: Seq<char>)
    requires
        stands_below(parent, node, want),
        !text::equal_ignoring_case("FOLDER"@, want),
    ensures
        parent.below(want).contains(node),
{
    let pick = |child: LayoutNodeV2| child.picked(want);
    let keep = |grandchild: LayoutNodeV2|
        if grandchild.has_type(want) {
            seq![grandchild]
        } else {
            Seq::empty()
        };
    let s = parent.children@;
    if exists|i: int| 0 <= i < s.len() && #[trigger] s[i] == node {
        let i = choose|i: int| 0 <= i < s.len() && #[trigger] s[i] == node;
        assert(pick(s[i])[0] == node);
        assert(pick(s[i]).contains(node));
        lists::lemma_gather_has(s, pick, i, node);
    } else {
        let (i, k) = choose|i: int, k: int|
            {
                &&& 0 <= i < s.len()
                &&& text::equal_ignoring_case(s[i].node_type@, "FOLDER"@)
                &&& 0 <= k < s[i].children@.len()
                &&& #[trigger] s[i].children@[k] == node
            };
        let folder = s[i];
        if folder.has_type(want) {
            lemma_no_folder(folder, want);
        }
        assert(keep(folder.children@[k])[0] == node);
        assert(keep(folder.children@[k]).contains(node));
        lists::lemma_gather_has(folder.children@, keep, k, node);
        assert(pick(folder).contains(node));
        lists::lemma_gather_has(s, pick, i, node);
    }
}

proof fn lemma_stands_below(parent: LayoutNodeV2, node: LayoutNodeV2, want: Seq<char>)
    requires
        parent.below(want).contains(node),
    ensures
        stands_below(parent, node, want),
{
    let pick = |child: LayoutNodeV2| child.picked(want);
    let keep = |grandchild: LayoutNodeV2|
        if grandchild.has_type(want) {
            seq![grandchild]
        } else {
            Seq::empty()
        };
    let s = parent.children@;
    let i = lists::lemma_gather_from(s, pick, node);
    let child = s[i];
    if child.has_type(want) {
        let own = seq![child];
        assert(pick(child) == own);
        let k = choose|k: int| 0 <= k < own.len() && own[k] == node;
        assert(s[i] == node);
    } else {
        let k = lists::lemma_gather_from(child.children@, keep, node);
        let grandchild = child.children@[k];
        let own = keep(grandchild);
        let n = choose|n: int| 0 <= n < own.len() && own[n] == node;
        assert(parent.children@[i].children@[k] == node);
    }
}

/// A device goes by the first of its serial number, its identifier and its UUID
/// that is not blank, and by its name, or by that number where the name is blank.
pub proof fn lemma_device_named(node: LayoutNodeV2)
    ensures
        !text::is_blank(node.serial@) ==> node.device_serial() == node.serial@,
        text::is_blank(node.serial@) && !text::is_blank(node.properties.identifier@)
            ==> node.device_serial() == node.properties.identifier@,
        text::is_blank(node.serial@) && text::is_blank(node.properties.identifier@)
            && !text::is_blank(node.uuid@) ==> node.device_serial() == node.uuid@,
        text::is_blank(node.serial@) && text::is_blank(node.properties.identifier@)
            && text::is_blank(node.uuid@) ==> node.device_serial().len() == 0,
        !text::is_blank(node.name@) ==> node.display_name() == node.name@,
        text::is_blank(node.name@) ==> node.display_name() == node.device_serial(),
{
}

/// Every optimizer of every string of every inverter is listed, with its
/// inverter.
pub proof fn lemma_optimizer_of_string_listed(
    layout: LayoutNodeV2,
    inverter: LayoutNodeV2,
    string: LayoutNodeV2,
    opt: LayoutNodeV2,
)
    requires
        stands_below(
            match layout.site_structure {
                Some(inner) => *inner,
                None => layout,
            },
            inverter,
            "INVERTER"@,
        ),
        stands_below(inverter, string, "STRING"@),
        stands_below(string, opt, "OPTIMIZER"@),
    ensures
        site_entries(layout).contains(
            (FlatOptimizerView {
                serial_number: opt.device_serial(),
                display_name: opt.display_name(),
                inverter_serial: inverter.device_serial(),
                inverter_display_name: inverter.display_name(),
                status: opt.properties.status@,
            }),
        ),
{
    lemma_device_types();
    lemma_found_below(layout.tree(), inverter, "INVERTER"@);
    lemma_found_below(inverter, string, "STRING"@);
    lemma_found_below(string, opt, "OPTIMIZER"@);
    let inverters = layout.tree().below("INVERTER"@);
    let i = choose|i: int| 0 <= i < inverters.len() && inverters[i] == inverter;
    let strings = inverter.below("STRING"@);
    let f = |string: LayoutNodeV2| string.below("OPTIMIZER"@);
    let k = choose|k: int| 0 <= k < strings.len() && strings[k] == string;
    assert(f(strings[k]).contains(opt));
    lists::lemma_gather_has(strings, f, k, opt);
    let opts = inverter.optimizers();
    assert(opts.contains(opt));
    let n = choose|n: int| 0 <= n < opts.len() && opts[n] == opt;
    lemma_every_optimizer_listed(layout, i, n);
}

/// Every optimizer of an inverter without strings is listed, with its inverter.
pub proof fn lemma_optimizer_without_string_listed(
    layout: LayoutNodeV2,
    inverter: LayoutNodeV2,
    opt: LayoutNodeV2,
)
    requires
        stands_below(
            match layout.site_structure {
                Some(inner) => *inner,
                None => layout,
            },
            inverter,
            "INVERTER"@,
        ),
        forall|string: LayoutNodeV2| !#[trigger] stands_below(inverter, string, "STRING"@),
        stands_below(inverter, opt, "OPTIMIZER"@),
    ensures
        site_entries(layout).contains(
            (FlatOptimizerView {
                serial_number: opt.device_serial(),
                display_name: opt.display_name(),
                inverter_serial: inverter.device_serial(),
                inverter_display_name: inverter.display_name(),
                status: opt.properties.status@,
            }),
        ),
{
    lemma_device_types();
    lemma_found_below(layout.tree(), inverter, "INVERTER"@);
    lemma_found_below(inverter, opt, "OPTIMIZER"@);
    let inverters = layout.tree().below("INVERTER"@);
    let i = choose|i: int| 0 <= i < inverters.len() && inverters[i] == inverter;
    let strings = inverter.below("STRING"@);
    if strings.len() > 0 {
        assert(strings.contains(strings[0]));
        lemma_stands_below(inverter, strings[0], "STRING"@);
    }
    let opts = inverter.optimizers();
    assert(opts.contains(opt));
    let n = choose|n: int| 0 <= n < opts.len() && opts[n] == opt;
    lemma_every_optimizer_listed(layout, i, n);
}

/// Nothing else is listed: every entry is an optimizer of a string of an
/// inverter, or, where the inverter has no strings, one of the inverter itself.
pub proof fn lemma_listed_from_tree(layout: LayoutNodeV2, entry: FlatOptimizerView) -> (r: (
    LayoutNodeV2,
    LayoutNodeV2,
))
    requires
        site_entries(layout).contains(entry),
    ensures
        stands_below(
            match layout.site_structure {
                Some(inner) => *inner,
                None => layout,
            },
            r.0,
            "INVERTER"@,
        ),
        (exists|string: LayoutNodeV2|
            #![trigger stands_below(r.0, string, "STRING"@)]
            stands_below(r.0, string, "STRING"@) && stands_below(string, r.1, "OPTIMIZER"@)) || ((
        forall|string: LayoutNodeV2| !#[trigger] stands_below(r.0, string, "STRING"@))
            && stands_below(r.0, r.1, "OPTIMIZER"@)),
        entry == (FlatOptimizerView {
            serial_number: r.1.device_serial(),
            display_name: r.1.display_name(),
            inverter_serial: r.0.device_serial(),
            inverter_display_name: r.0.display_name(),
            status: r.1.properties.status@,
        }),
{
    lemma_device_types();
    let (i, k) = lemma_only_optimizers_listed(layout, entry);
    let inverters = layout.tree().below("INVERTER"@);
    let inverter = inverters[i];
    let opts = inverter.optimizers();
    let opt = opts[k];
    assert(inverters.contains(inverter));
    lemma_stands_below(layout.tree(), inverter, "INVERTER"@);
    let strings = inverter.below("STRING"@);
    let f = |string: LayoutNodeV2| string.below("OPTIMIZER"@);
    assert(opts.contains(opt));
    if strings.len() == 0 {
        lemma_stands_below(inverter, opt, "OPTIMIZER"@);
        assert forall|string: LayoutNodeV2| !#[trigger] stands_below(inverter, string, "STRING"@) by {
            if stands_below(inverter, string, "STRING"@) {
                lemma_found_below(inverter, string, "STRING"@);
            }
        }
    } else {
        let n = lists::lemma_gather_from(strings, f, opt);
        assert(strings.contains(strings[n]));
        lemma_stands_below(inverter, strings[n], "STRING"@);
        lemma_stands_below(strings[n], opt, "OPTIMIZER"@);
    }
    (inverter, opt)
}

/// The list goes by the tree: where the children of one root are those of a
/// second and then those of a third, its list is the list of the second and then
/// that of the third.
pub proof fn lemma_sites_in_two(whole: LayoutNodeV2, first: LayoutNodeV2, second: LayoutNodeV2)
    requires
        whole.site_structure is None,
        first.site_structure is None,
        second.site_structure is None,
        whole.children@ == first.children@ + second.children@,
    ensures
        site_entries(whole) == site_entries(first) + site_entries(second),
{
    lemma_below_in_two(whole, first, second, "INVERTER"@);
    let f = |inverter: LayoutNodeV2| inverter_entries(inverter);
    lists::lemma_gather_in_two(first.below("INVERTER"@), second.below("INVERTER"@), f);
}

proof fn lemma_below_in_two(
    whole: LayoutNodeV2,
    first: LayoutNodeV2,
    second: LayoutNodeV2,
    want: Seq<char>,
)
    requires
        whole.children@ == first.children@ + second.children@,
    ensures
        whole.below(want) == first.below(want) + second.below(want),
{
    let pick = |child: LayoutNodeV2| child.picked(want);
    lists::lemma_gather_in_two(first.children@, second.children@, pick);
}

/// The list of an inverter goes by its strings in the same way.
pub proof fn lemma_strings_in_two(whole: LayoutNodeV2, first: LayoutNodeV2, second: LayoutNodeV2)
    requires
        whole.children@ == first.children@ + second.children@,
        whole.device_serial() == first.device_serial(),
        whole.device_serial() == second.device_serial(),
        whole.display_name() == first.display_name(),
        whole.display_name() == second.display_name(),
        exists|string: LayoutNodeV2| #[trigger] stands_below(first, string, "STRING"@),
        exists|string: LayoutNodeV2| #[trigger] stands_below(second, string, "STRING"@),
    ensures
        inverter_entries(whole) == inverter_entries(first) + inverter_entries(second),
{
    lemma_device_types();
    let a = choose|string: LayoutNodeV2| #[trigger] stands_below(first, string, "STRING"@);
    let b = choose|string: LayoutNodeV2| #[trigger] stands_below(second, string, "STRING"@);
    lemma_found_below(first, a, "STRING"@);
    lemma_found_below(second, b, "STRING"@);
    lemma_below_in_two(whole, first, second, "STRING"@);
    let f = |string: LayoutNodeV2| string.below("OPTIMIZER"@);
    lists::lemma_gather_in_two(first.below("STRING"@), second.below("STRING"@), f);
    assert(whole.optimizers() == first.optimizers() + second.optimizers());
    assert(inverter_entries(whole) =~= inverter_entries(first) + inverter_entries(second));
}

/// An inverter alone with one string is listed with the optimizers of the
/// string, each once and in their order.
pub proof fn lemma_one_string(layout: LayoutNodeV2)
    requires
        layout.site_structure is None,
        layout.children@.len() == 1,
        text::equal_ignoring_case(layout.children@[0].node_type@, "INVERTER"@),
        layout.children@[0].children@.len() == 1,
        text::equal_ignoring_case(layout.children@[0].children@[0].node_type@, "STRING"@),
        forall|i: int|
            0 <= i < layout.children@[0].children@[0].children@.len()
                ==> text::equal_ignoring_case(
                (#[trigger] layout.children@[0].children@[0].children@[i]).node_type@,
                "OPTIMIZER"@,
            ),
    ensures
        ({
            let inverter = layout.children@[0];
            let opts = inverter.children@[0].children@;
            &&& site_entries(layout).len() == opts.len()
            &&& forall|i: int|
                0 <= i < opts.len() ==> #[trigger] site_entries(layout)[i] == (FlatOptimizerView {
                    serial_number: opts[i].device_serial(),
                    display_name: opts[i].display_name(),
                    inverter_serial: inverter.device_serial(),
                    inverter_display_name: inverter.display_name(),
                    status: opts[i].properties.status@,
                })
        }),
{
    let inverter = layout.children@[0];
    let string = inverter.children@[0];
    lemma_only_child(layout, "INVERTER"@);
    lemma_only_child(inverter, "STRING"@);
    lemma_all_children(string, "OPTIMIZER"@);
    let f = |string: LayoutNodeV2| string.below("OPTIMIZER"@);
    let g = |inverter: LayoutNodeV2| inverter_entries(inverter);
    lists::lemma_gather_one(string, f);
    lists::lemma_gather_one(inverter, g);
    assert(layout.tree() == layout);
    assert(inverter.optimizers() == string.children@);
}

proof fn lemma_only_child(parent: LayoutNodeV2, want: Seq<char>)
    requires
        parent.children@.len() == 1,
        parent.children@[0].has_type(want),
    ensures
        parent.below(want) == seq![parent.children@[0]],
{
    let pick = |child: LayoutNodeV2| child.picked(want);
    assert(parent.children@ =~= seq![parent.children@[0]]);
    lists::lemma_gather_one(parent.children@[0], pick);
}

proof fn lemma_all_children(parent: LayoutNodeV2, want: Seq<char>)
    requires
        forall|i: int|
            0 <= i < parent.children@.len() ==> (#[trigger] parent.children@[i]).has_type(want),
    ensures
        parent.below(want) == parent.children@,
{
    let pick = |child: LayoutNodeV2| child.picked(want);
    lists::lemma_gather_each(parent.children@, pick);
}

/// The optimizers that are gone are those whose status, without white space
/// around it, is REPLACED or INACTIVE, in letters of either case.
pub proof fn lemma_gone(opt: FlatOptimizerView)
    ensures
        opt.active() <==> !text::equal_ignoring_case(text::trim(opt.status), "REPLACED"@)
            && !text::equal_ignoring_case(text::trim(opt.status), "INACTIVE"@),
{
}

/// An optimizer has telemetry exactly where one of its four electrical values
/// was reported; when they were measured does not matter.
pub proof fn lemma_nothing_reported(live: LiveData)
    ensures
        !live.measured() <==> live.power_w is None && live.current_a is None && live.voltage_v is None
            && live.optimizer_voltage_v is None,
{
}

/// A numeric text is read as it stands, without the white space round it,
/// wherever that gives a number.
pub proof fn lemma_number_as_it_stands<F: Fn(&str) -> Option<Reading>>(
    parse: F,
    before: Seq<char>,
    number: Seq<char>,
    after: Seq<char>,
    value: Reading,
    r: Option<Reading>,
)
    requires
        text::is_blank(before),
        text::is_blank(after),
        number.len() > 0,
        !text::is_space(number[0]),
        !text::is_space(number.last()),
        forall|t: &str, v: Option<Reading>| #[trigger]
            parse.ensures((t,), v) && t@ == number ==> v == Some(value),
        number_outcome(parse, before + number + after, r),
    ensures
        r == Some(value),
{
    text::lemma_trimmed(before, number, after);
}

/// A numeric text that cannot be read as it stands is read with a point in
/// place of every comma, and nothing else changed; without any comma it is no
/// number.
pub proof fn lemma_decimal_comma<F: Fn(&str) -> Option<Reading>>(
    parse: F,
    number: Seq<char>,
    pointed: Seq<char>,
    value: Option<Reading>,
    r: Option<Reading>,
)
    requires
        number.len() > 0,
        !text::is_space(number[0]),
        !text::is_space(number.last()),
        pointed.len() == number.len(),
        forall|i: int|
            0 <= i < number.len() ==> #[trigger] pointed[i] == if number[i] == ',' {
                '.'
            } else {
                number[i]
            },
        forall|t: &str, v: Option<Reading>| #[trigger]
            parse.ensures((t,), v) && t@ == number ==> v is None,
        number.contains(',') ==> forall|t: &str, v: Option<Reading>| #[trigger]
            parse.ensures((t,), v) && t@ == pointed ==> v == value,
        number_outcome(parse, number, r),
    ensures
        number.contains(',') ==> r == value,
        !number.contains(',') ==> r is None,
{
    let none = Seq::<char>::empty();
    text::lemma_trimmed(none, number, none);
    assert(none + number + none =~= number);
    assert(text::with_replaced(number, ',', '.') =~= pointed);
    if !number.contains(',') {
        assert(pointed =~= number) by {
            assert forall|i: int| 0 <= i < number.len() implies #[trigger] pointed[i]
                == number[i] by {
                assert(number.contains(number[i]));
            }
        }
    }
}

/// The energy charged into the battery is the part of the production that went
/// there, and the energy discharged the part of the consumption that came from
/// there.
pub proof fn lemma_battery_sides(energy: DashboardEnergyResponse, other: DashboardEnergyResponse)
    ensures
        energy.summary.production_distribution == other.summary.production_distribution
            ==> energy.charged() == other.charged(),
        energy.summary.consumption_distribution == other.summary.consumption_distribution
            ==> energy.discharged() == other.discharged(),
        energy.charged() == energy.summary.production_distribution.production_to_battery,
        energy.discharged() == energy.summary.consumption_distribution.consumption_from_battery,
{
}

/// The list that is made of a layout has, for every optimizer of every string
/// of every inverter, an entry with the number and the name of both and the
/// status of the optimizer.
pub proof fn lemma_flattened(
    layout: &LayoutNodeV2,
    inverter: LayoutNodeV2,
    string: LayoutNodeV2,
    opt: LayoutNodeV2,
    r: Vec<FlatOptimizer>,
) -> (k: int)
    requires
        call_ensures(flatten_layout_v2, (layout,), r),
        stands_below(
            match layout.site_structure {
                Some(inner) => *inner,
                None => *layout,
            },
            inverter,
            "INVERTER"@,
        ),
        stands_below(inverter, string, "STRING"@),
        stands_below(string, opt, "OPTIMIZER"@),
    ensures
        0 <= k < r@.len(),
        r@[k].serial_number@ == opt.device_serial(),
        r@[k].display_name@ == opt.display_name(),
        r@[k].inverter_serial@ == inverter.device_serial(),
        r@[k].inverter_display_name@ == inverter.display_name(),
        r@[k].status@ == opt.properties.status@,
{
    lemma_optimizer_of_string_listed(*layout, inverter, string, opt);
    let entry = FlatOptimizerView {
        serial_number: opt.device_serial(),
        display_name: opt.display_name(),
        inverter_serial: inverter.device_serial(),
        inverter_display_name: inverter.display_name(),
        status: opt.properties.status@,
    };
    let all = flat_views(r@);
    assert(all.contains(entry));
    let k = choose|k: int| 0 <= k < all.len() && all[k] == entry;
    assert(r@[k]@ == entry);
    k
}

/// Every entry of the list that is made of a layout is an optimizer of the
/// layout, below an inverter.
pub proof fn lemma_flattened_from(layout: &LayoutNodeV2, r: Vec<FlatOptimizer>, k: int) -> (from: (
    LayoutNodeV2,
    LayoutNodeV2,
))
    requires
        call_ensures(flatten_layout_v2, (layout,), r),
        0 <= k < r@.len(),
    ensures
        stands_below(
            match layout.site_structure {
                Some(inner) => *inner,
                None => *layout,
            },
            from.0,
            "INVERTER"@,
        ),
        text::equal_ignoring_case(from.1.node_type@, "OPTIMIZER"@),
        r@[k].serial_number@ == from.1.device_serial(),
        r@[k].display_name@ == from.1.display_name(),
        r@[k].inverter_serial@ == from.0.device_serial(),
        r@[k].inverter_display_name@ == from.0.display_name(),
        r@[k].status@ == from.1.properties.status@,
{
    let all = flat_views(r@);
    assert(all[k] == r@[k]@);
    assert(site_entries(*layout).contains(all[k]));
    let from = lemma_listed_from_tree(*layout, all[k]);
    from
}

/// The nodes of a type that are collected are those that stand below, whether
/// among the children or in a folder among them, and no others.
pub proof fn lemma_collected(
    parent: &LayoutNodeV2,
    want: &str,
    r: Vec<&LayoutNodeV2>,
    node: LayoutNodeV2,
)
    requires
        call_ensures(LayoutNodeV2::typed_children, (parent, want), r),
        !text::equal_ignoring_case(want@, "FOLDER"@),
    ensures
        (exists|k: int| 0 <= k < r@.len() && *#[trigger] r@[k] == node) <==> stands_below(
            *parent,
            node,
            want@,
        ),
{
    let all = nodes(r@);
    assert(all.len() == r@.len());
    if exists|k: int| 0 <= k < r@.len() && *#[trigger] r@[k] == node {
        let k = choose|k: int| 0 <= k < r@.len() && *#[trigger] r@[k] == node;
        assert(all[k] == node);
        assert(all.contains(node));
        lemma_stands_below(*parent, node, want@);
    }
    if stands_below(*parent, node, want@) {
        lemma_found_below(*parent, node, want@);
        let k = choose|k: int| 0 <= k < all.len() && all[k] == node;
        assert(*r@[k] == node);
    }
}

} // verus!
