use vstd::prelude::*;

use crate::node_map::{lemma_map_of_domain, lemma_map_of_entry, map_of, NodeMap};
use crate::udev::UdevKeyboardInfo;
use crate::xinput::{XInputCandidate, XInputKeyboardInfo};

verus! {

/// A keyboard that both enumerations report.
#[derive(Debug)]
pub struct KeyboardInfo {
    pub name: String,
    pub device_node: String,
    pub xinput_id: u8,
    pub vendor_id: u16,
    pub product_id: u16,
}

pub ghost struct KeyboardRecord {
    pub name: Seq<char>,
    pub device_node: Seq<char>,
    pub xinput_id: u8,
    pub vendor_id: u16,
    pub product_id: u16,
}

impl View for KeyboardInfo {
    type V = KeyboardRecord;

    open spec fn view(&self) -> KeyboardRecord {
        KeyboardRecord {
            name: self.name@,
            device_node: self.device_node@,
            xinput_id: self.xinput_id,
            vendor_id: self.vendor_id,
            product_id: self.product_id,
        }
    }
}

impl KeyboardInfo {
    /// A copy of the record.
    pub fn duplicate(&self) -> (r: KeyboardInfo)
        ensures
            r@ == self@,
    {
        KeyboardInfo {
            name: self.name.clone(),
            device_node: self.device_node.clone(),
            xinput_id: self.xinput_id,
            vendor_id: self.vendor_id,
            product_id: self.product_id,
        }
    }
}

/// The record of a device node that both sources report: name and xinput id
/// from the display server, vendor and product from the device manager.
pub open spec fn combined(node: Seq<char>, x: XInputCandidate, d: UdevKeyboardInfo) -> KeyboardRecord {
    KeyboardRecord {
        name: x.name,
        device_node: node,
        xinput_id: x.xinput_id,
        vendor_id: d.vendor_id,
        product_id: d.product_id,
    }
}

/// The keyboards of one pass: the device nodes present in both enumerations.
pub open spec fn merged(
    x: Map<Seq<char>, XInputCandidate>,
    d: Map<Seq<char>, UdevKeyboardInfo>,
) -> Map<Seq<char>, KeyboardRecord> {
    Map::new(|k: Seq<char>| x.contains_key(k) && d.contains_key(k), |k: Seq<char>| combined(k, x[k], d[k]))
}

/// One reconciliation pass from a known set: the keyboards that appeared, and
/// the known set that replaces the old one.
pub open spec fn reconcile(
    known: Map<Seq<char>, KeyboardRecord>,
    x: Map<Seq<char>, XInputCandidate>,
    d: Map<Seq<char>, UdevKeyboardInfo>,
) -> (Map<Seq<char>, KeyboardRecord>, Map<Seq<char>, KeyboardRecord>) {
    let m = merged(x, d);
    (m.remove_keys(known.dom()), m)
}

/// The keyboards known from the last reconciliation pass, by device node.
pub struct KeyboardPresenceState {
    known_keyboards: NodeMap<KeyboardInfo>,
}

impl View for KeyboardPresenceState {
    type V = Map<Seq<char>, KeyboardRecord>;

    closed spec fn view(&self) -> Map<Seq<char>, KeyboardRecord> {
        self.known_keyboards@
    }
}

impl KeyboardPresenceState {
    pub closed spec fn wf(&self) -> bool {
        self.known_keyboards.wf()
    }

    /// A state that knows no keyboard.
    pub fn new() -> (r: Self)
        ensures
            r.wf(),
            r@ == Map::<Seq<char>, KeyboardRecord>::empty(),
    {
        KeyboardPresenceState { known_keyboards: NodeMap::new() }
    }

    /// Joins the two enumerations of a pass, returns the keyboards that were
    /// not known before it, and replaces the known set with the pass's keyboards.
    pub fn update(
        &mut self,
        xinput_keyboards: &NodeMap<XInputKeyboardInfo>,
        udev_keyboards: &NodeMap<UdevKeyboardInfo>,
    ) -> (added: NodeMap<KeyboardInfo>)
        requires
            old(self).wf(),
            xinput_keyboards.wf(),
            udev_keyboards.wf(),
        ensures
            final(self).wf(),
            added.wf(),
            (added@, final(self)@) == reconcile(old(self)@, xinput_keyboards@, udev_keyboards@),
    {
        let ghost xs = xinput_keyboards.entries();
        let mut keyboards: NodeMap<KeyboardInfo> = NodeMap::new();
        let n = xinput_keyboards.len();
        let mut i: usize = 0;
        assert(xs.take(0) == Seq::<(String, XInputKeyboardInfo)>::empty());
        assert(keyboards@ == merged(map_of(xs.take(0)), udev_keyboards@));
        while i < n
            invariant
                keyboards.wf(),
                xinput_keyboards.wf(),
                udev_keyboards.wf(),
                xs == xinput_keyboards.entries(),
                n == xs.len(),
                i <= n,
                keyboards@ == merged(map_of(xs.take(i as int)), udev_keyboards@),
            decreases n - i,
        {
            let node = xinput_keyboards.key_at(i);
            let xk = xinput_keyboards.value_at(i);
            let ghost before = map_of(xs.take(i as int));
            proof {
                assert(xs.take(i + 1).drop_last() == xs.take(i as int));
                assert(map_of(xs.take(i + 1)) == before.insert(node@, xk@));
                lemma_map_of_domain(xs.take(i as int), node@);
                if before.contains_key(node@) {
                    let j = choose|j: int| 0 <= j < i && #[trigger] xs.take(i as int)[j].0@ == node@;
                    assert(xs[j].0@ == xs[i as int].0@);
                }
            }
            match udev_keyboards.get(node) {
                Some(uk) => {
                    keyboards.insert_new(
                        node.clone(),
                        KeyboardInfo {
                            name: xk.name.clone(),
                            device_node: node.clone(),
                            xinput_id: xk.xinput_id,
                            vendor_id: uk.vendor_id,
                            product_id: uk.product_id,
                        },
                    );
                },
                None => {},
            }
            assert(keyboards@ == merged(map_of(xs.take(i + 1)), udev_keyboards@));
            i = i + 1;
        }
        assert(xs.take(n as int) == xs);

        let ghost ks = keyboards.entries();
        let ghost known = self@;
        let mut added: NodeMap<KeyboardInfo> = NodeMap::new();
        let m = keyboards.len();
        let mut j: usize = 0;
        assert(ks.take(0) == Seq::<(String, KeyboardInfo)>::empty());
        assert(added@ == map_of(ks.take(0)).remove_keys(known.dom()));
        while j < m
            invariant
                added.wf(),
                keyboards.wf(),
                self.wf(),
                self@ == known,
                ks == keyboards.entries(),
                m == ks.len(),
                j <= m,
                added@ == map_of(ks.take(j as int)).remove_keys(known.dom()),
            decreases m - j,
        {
            let node = keyboards.key_at(j);
            let kb = keyboards.value_at(j);
            let ghost before = map_of(ks.take(j as int));
            proof {
                assert(ks.take(j + 1).drop_last() == ks.take(j as int));
                assert(map_of(ks.take(j + 1)) == before.insert(node@, kb@));
                lemma_map_of_domain(ks.take(j as int), node@);
                if before.contains_key(node@) {
                    let t = choose|t: int| 0 <= t < j && #[trigger] ks.take(j as int)[t].0@ == node@;
                    assert(ks[t].0@ == ks[j as int].0@);
                }
            }
            if !self.known_keyboards.contains_key(node) {
                added.insert_new(node.clone(), kb.duplicate());
            }
            assert(added@ == map_of(ks.take(j + 1)).remove_keys(known.dom()));
            j = j + 1;
        }
        assert(ks.take(m as int) == ks);
        self.known_keyboards = keyboards;
        added
    }
}

/// Two passes over unchanged enumerations: the second finds nothing new and
/// leaves the known set as the first left it.
pub proof fn lemma_update_idempotent(
    known: Map<Seq<char>, KeyboardRecord>,
    x: Map<Seq<char>, XInputCandidate>,
    d: Map<Seq<char>, UdevKeyboardInfo>,
)
    ensures
        reconcile(reconcile(known, x, d).1, x, d).0 == Map::<Seq<char>, KeyboardRecord>::empty(),
        reconcile(reconcile(known, x, d).1, x, d).1 == reconcile(known, x, d).1,
{
    let m = merged(x, d);
    assert(m.remove_keys(m.dom()) == Map::<Seq<char>, KeyboardRecord>::empty());
}

/// A device node that only one enumeration reports is neither known after the
/// pass nor among the keyboards it added.
pub proof fn lemma_one_sided_node_excluded(
    known: Map<Seq<char>, KeyboardRecord>,
    x: Map<Seq<char>, XInputCandidate>,
    d: Map<Seq<char>, UdevKeyboardInfo>,
    node: Seq<char>,
)
    requires
        !(x.contains_key(node) && d.contains_key(node)),
    ensures
        !reconcile(known, x, d).0.contains_key(node),
        !reconcile(known, x, d).1.contains_key(node),
{
}

/// A device node that both enumerations report is known after the pass, with
/// name and xinput id from the display server and vendor and product from the
/// device manager.
pub proof fn lemma_node_keyed_join(
    known: Map<Seq<char>, KeyboardRecord>,
    x: Map<Seq<char>, XInputCandidate>,
    d: Map<Seq<char>, UdevKeyboardInfo>,
    node: Seq<char>,
)
    requires
        x.contains_key(node),
        d.contains_key(node),
    ensures
        reconcile(known, x, d).1.contains_key(node),
        reconcile(known, x, d).1[node].name == x[node].name,
        reconcile(known, x, d).1[node].xinput_id == x[node].xinput_id,
        reconcile(known, x, d).1[node].vendor_id == d[node].vendor_id,
        reconcile(known, x, d).1[node].product_id == d[node].product_id,
        reconcile(known, x, d).1[node].device_node == node,
        !known.contains_key(node) ==> reconcile(known, x, d).0.contains_key(node),
{
}

/// A keyboard that leaves in one pass and returns in a later one is added
/// again, though an earlier pass had added it.
pub proof fn lemma_forget_and_reappear(
    known: Map<Seq<char>, KeyboardRecord>,
    x1: Map<Seq<char>, XInputCandidate>,
    d1: Map<Seq<char>, UdevKeyboardInfo>,
    x2: Map<Seq<char>, XInputCandidate>,
    d2: Map<Seq<char>, UdevKeyboardInfo>,
    x3: Map<Seq<char>, XInputCandidate>,
    d3: Map<Seq<char>, UdevKeyboardInfo>,
    node: Seq<char>,
)
    requires
        !merged(x2, d2).contains_key(node),
        merged(x3, d3).contains_key(node),
    ensures
        reconcile(reconcile(reconcile(known, x1, d1).1, x2, d2).1, x3, d3).0.contains_key(node),
{
}

/// From an empty known set, rounds with keyboards {a, b}, then {a}, then
/// {a, b} add {a, b}, then nothing, then {b}.
pub proof fn lemma_forget_and_reappear_rounds(
    x1: Map<Seq<char>, XInputCandidate>,
    d1: Map<Seq<char>, UdevKeyboardInfo>,
    x2: Map<Seq<char>, XInputCandidate>,
    d2: Map<Seq<char>, UdevKeyboardInfo>,
    x3: Map<Seq<char>, XInputCandidate>,
    d3: Map<Seq<char>, UdevKeyboardInfo>,
    a: Seq<char>,
    b: Seq<char>,
)
    requires
        a != b,
        merged(x1, d1).dom() == set![a, b],
        merged(x2, d2).dom() == set![a],
        merged(x3, d3).dom() == set![a, b],
    ensures
        ({
            let r1 = reconcile(Map::empty(), x1, d1);
            let r2 = reconcile(r1.1, x2, d2);
            let r3 = reconcile(r2.1, x3, d3);
            &&& r1.0.dom() == set![a, b]
            &&& r2.0.dom() == Set::<Seq<char>>::empty()
            &&& r3.0.dom() == set![b]
        }),
{
    let r1 = reconcile(Map::empty(), x1, d1);
    let r2 = reconcile(r1.1, x2, d2);
    let r3 = reconcile(r2.1, x3, d3);
    assert(r1.0.dom() == set![a, b]);
    assert(r2.0.dom() == Set::<Seq<char>>::empty());
    assert(r3.0.dom() == set![b]);
}

} // verus!
