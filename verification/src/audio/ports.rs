//! The JACK ports that can feed the audio input, and the ports JACK has
//! announced as gone but still lists.
//!
//! JACK's port list is a client-side copy of the graph that lags the
//! port-registration callback, so a port that has just gone away keeps being
//! listed for a few milliseconds after the notification. The notification
//! thread records the name in [`RetiredPorts`], and the list is read through
//! [`RetiredPorts::subtract`], which makes it right the instant the
//! notification arrives.

use vstd::prelude::*;

use crate::audio::source::PortName;

verus! {

/// Whether `names` holds `name`.
pub fn contains_name(names: &[String], name: &String) -> (found: bool)
    ensures
        found == names@.map_values(|n: String| n@).contains(name@),
{
    let ghost views = names@.map_values(|n: String| n@);
    let mut i: usize = 0;
    while i < names.len()
        invariant
            i <= names.len(),
            views == names@.map_values(|n: String| n@),
            forall|j: int| 0 <= j < i ==> views[j] != name@,
        decreases names.len() - i,
    {
        if names[i] == *name {
            assert(views[i as int] == name@);
            return true;
        }
        i = i + 1;
    }
    proof {
        if views.contains(name@) {
            let j = choose|j: int| 0 <= j < views.len() && views[j] == name@;
            assert(views[j] != name@);
        }
    }
    false
}

/// What a filtered sequence holds: the elements of `s` that pass.
proof fn lemma_filter_members<A>(s: Seq<A>, pred: spec_fn(A) -> bool, v: A)
    ensures
        s.filter(pred).contains(v) <==> (s.contains(v) && pred(v)),
{
    if s.filter(pred).contains(v) {
        s.lemma_filter_contains_rev(pred, v);
        let k = choose|k: int| 0 <= k < s.filter(pred).len() && s.filter(pred)[k] == v;
        s.lemma_filter_pred(pred, k);
    }
    if s.contains(v) && pred(v) {
        let j = choose|j: int| 0 <= j < s.len() && s[j] == v;
        s.lemma_filter_contains(pred, j);
    }
}

/// Filtering a sequence without duplicates leaves none.
proof fn lemma_filter_no_duplicates<A>(s: Seq<A>, pred: spec_fn(A) -> bool)
    requires
        s.no_duplicates(),
    ensures
        s.filter(pred).no_duplicates(),
    decreases s.len(),
{
    reveal_with_fuel(Seq::<_>::filter, 1);
    if s.len() > 0 {
        let rest = s.drop_last();
        assert(rest.no_duplicates());
        lemma_filter_no_duplicates(rest, pred);
        let f = rest.filter(pred);
        if pred(s.last()) {
            lemma_filter_members(rest, pred, s.last());
            assert(!rest.contains(s.last()));
            assert(!f.contains(s.last()));
            let g = f.push(s.last());
            assert forall|i: int, j: int|
                0 <= i < g.len() && 0 <= j < g.len() && i != j implies g[i] != g[j] by {
                if i == f.len() {
                    assert(f.contains(g[j]));
                } else if j == f.len() {
                    assert(f.contains(g[i]));
                }
            }
        }
    }
}

/// The names JACK has announced as unregistered but may still list.
///
/// The notification thread and the thread that lists the ports work on one
/// set: whoever shares it holds it behind a lock, so it has no `Clone` that
/// would hand out a separate copy.
#[derive(Debug)]
pub struct RetiredPorts {
    names: Vec<String>,
}

impl View for RetiredPorts {
    type V = Set<Seq<char>>;

    /// The retired names.
    closed spec fn view(&self) -> Set<Seq<char>> {
        self.names@.map_values(|n: String| n@).to_set()
    }
}

impl RetiredPorts {
    /// Each retired name is held once.
    pub closed spec fn wf(&self) -> bool {
        self.names@.map_values(|n: String| n@).no_duplicates()
    }

    /// A set with nothing retired.
    pub fn new() -> (retired: RetiredPorts)
        ensures
            retired.wf(),
            retired@ == Set::<Seq<char>>::empty(),
    {
        let retired = RetiredPorts { names: Vec::new() };
        proof {
            assert(retired.names@.map_values(|n: String| n@) =~= Seq::<Seq<char>>::empty());
        }
        retired
    }

    /// The retired names, each once.
    pub fn names(&self) -> (names: &[String])
        requires
            self.wf(),
        ensures
            names@.map_values(|n: String| n@).to_set() == self@,
            names@.map_values(|n: String| n@).no_duplicates(),
    {
        self.names.as_slice()
    }

    /// Record a port JACK has announced as unregistered.
    pub fn retire(&mut self, name: String)
        requires
            old(self).wf(),
        ensures
            final(self).wf(),
            final(self)@ == old(self)@.insert(name@),
    {
        let ghost before = self.names@.map_values(|n: String| n@);
        if contains_name(self.names.as_slice(), &name) {
            proof {
                assert(before.to_set().contains(name@));
                assert(before.to_set().insert(name@) =~= before.to_set());
            }
            return;
        }
        self.names.push(name);
        proof {
            let after = self.names@.map_values(|n: String| n@);
            assert(after =~= before.push(name@));
            assert(after.to_set() =~= before.to_set().insert(name@)) by {
                assert forall|v: Seq<char>| after.contains(v) <==> (before.contains(v) || v
                    == name@) by {
                    if after.contains(v) {
                        let k = choose|k: int| 0 <= k < after.len() && after[k] == v;
                        if k < before.len() {
                            assert(before[k] == v);
                        }
                    }
                    if before.contains(v) {
                        let k = choose|k: int| 0 <= k < before.len() && before[k] == v;
                        assert(after[k] == v);
                    }
                    if v == name@ {
                        assert(after[before.len() as int] == v);
                    }
                }
            }
            assert forall|i: int, j: int|
                0 <= i < after.len() && 0 <= j < after.len() && i != j implies after[i]
                != after[j] by {
                if i < before.len() && j < before.len() {
                } else if i == before.len() {
                    assert(after[i] == name@);
                    assert(after[j] == before[j]);
                } else {
                    assert(after[j] == name@);
                    assert(after[i] == before[i]);
                }
            }
        }
    }

    /// Take a port back into the list, because JACK registered the name again.
    pub fn restore(&mut self, name: &str)
        requires
            old(self).wf(),
        ensures
            final(self).wf(),
            final(self)@ == old(self)@.remove(name@),
    {
        let name = name.to_owned();
        let ghost before = self.names@.map_values(|n: String| n@);
        let mut kept: Vec<String> = Vec::new();
        let mut i: usize = 0;
        while i < self.names.len()
            invariant
                i <= self.names.len(),
                before == self.names@.map_values(|n: String| n@),
                before.no_duplicates(),
                kept@.map_values(|n: String| n@) == before.take(i as int).filter(
                    |v: Seq<char>| v != name@,
                ),
            decreases self.names.len() - i,
        {
            let ghost kept_before = kept@.map_values(|n: String| n@);
            if self.names[i] != name {
                kept.push(self.names[i].clone());
            }
            proof {
                reveal_with_fuel(Seq::<_>::filter, 1);
                assert(before.take(i + 1).drop_last() =~= before.take(i as int));
                assert(kept@.map_values(|n: String| n@) =~= before.take(i + 1).filter(
                    |v: Seq<char>| v != name@,
                ));
            }
            i = i + 1;
        }
        proof {
            assert(before.take(before.len() as int) =~= before);
            let after = kept@.map_values(|n: String| n@);
                        assert(after.to_set() =~= before.to_set().remove(name@)) by {
                assert forall|v: Seq<char>| after.to_set().contains(v) <==> before.to_set().remove(
                    name@,
                ).contains(v) by {
                    lemma_filter_members(before, |v: Seq<char>| v != name@, v);
                }
            }
            lemma_filter_no_duplicates(before, |v: Seq<char>| v != name@);
        }
        self.names = kept;
    }

    /// Drop the retired ports from `listed`, keeping the rest in order.
    ///
    /// A retired name that `listed` no longer holds is forgotten: JACK's copy
    /// of the graph has caught up, and the name is free to be registered again.
    pub fn subtract(&mut self, listed: Vec<String>) -> (available: Vec<PortName>)
        requires
            old(self).wf(),
        ensures
            final(self).wf(),
            final(self)@ == old(self)@.intersect(listed@.map_values(|n: String| n@).to_set()),
            available@.map_values(|p: PortName| p@) == listed@.map_values(|n: String| n@).filter(
                |v: Seq<char>| !old(self)@.contains(v),
            ),
    {
        let ghost retired_before = self@;
        let ghost listed_views = listed@.map_values(|n: String| n@);
        // Forget the retired names JACK no longer lists.
        let ghost before = self.names@.map_values(|n: String| n@);
        let mut kept: Vec<String> = Vec::new();
        let mut i: usize = 0;
        while i < self.names.len()
            invariant
                i <= self.names.len(),
                before == self.names@.map_values(|n: String| n@),
                before.no_duplicates(),
                listed_views == listed@.map_values(|n: String| n@),
                kept@.map_values(|n: String| n@) == before.take(i as int).filter(
                    |v: Seq<char>| listed_views.contains(v),
                ),
            decreases self.names.len() - i,
        {
            if contains_name(listed.as_slice(), &self.names[i]) {
                kept.push(self.names[i].clone());
            }
            proof {
                reveal_with_fuel(Seq::<_>::filter, 1);
                assert(before.take(i + 1).drop_last() =~= before.take(i as int));
                assert(kept@.map_values(|n: String| n@) =~= before.take(i + 1).filter(
                    |v: Seq<char>| listed_views.contains(v),
                ));
            }
            i = i + 1;
        }
        proof {
            assert(before.take(before.len() as int) =~= before);
            let after = kept@.map_values(|n: String| n@);
                        assert(after.to_set() =~= before.to_set().intersect(listed_views.to_set())) by {
                assert forall|v: Seq<char>| after.to_set().contains(v) <==> before.to_set().intersect(
                    listed_views.to_set(),
                ).contains(v) by {
                    lemma_filter_members(before, |v: Seq<char>| listed_views.contains(v), v);
                }
            }
            lemma_filter_no_duplicates(before, |v: Seq<char>| listed_views.contains(v));
        }
        self.names = kept;

        // Keep the listed ports that are not retired.
        let mut available: Vec<PortName> = Vec::new();
        let mut j: usize = 0;
        while j < listed.len()
            invariant
                j <= listed.len(),
                self.wf(),
                self@ == retired_before.intersect(listed_views.to_set()),
                listed_views == listed@.map_values(|n: String| n@),
                available@.map_values(|p: PortName| p@) == listed_views.take(j as int).filter(
                    |v: Seq<char>| !retired_before.contains(v),
                ),
            decreases listed.len() - j,
        {
            let retired = contains_name(self.names.as_slice(), &listed[j]);
            proof {
                assert(listed_views.contains(listed_views[j as int]));
                assert(self.names@.map_values(|n: String| n@).contains(listed[j as int]@)
                    <==> self@.contains(listed[j as int]@));
            }
            if !retired {
                available.push(PortName(listed[j].clone()));
            }
            proof {
                reveal_with_fuel(Seq::<_>::filter, 1);
                assert(listed_views.take(j + 1).drop_last() =~= listed_views.take(j as int));
                assert(available@.map_values(|p: PortName| p@) =~= listed_views.take(j + 1).filter(
                    |v: Seq<char>| !retired_before.contains(v),
                ));
            }
            j = j + 1;
        }
        proof {
            assert(listed_views.take(listed_views.len() as int) =~= listed_views);
        }
        available
    }
}

impl Default for RetiredPorts {
    fn default() -> (retired: RetiredPorts)
        ensures
            retired.wf(),
            retired@ == Set::<Seq<char>>::empty(),
    {
        RetiredPorts::new()
    }
}

/// A retired port is hidden from the moment JACK announces it gone, however
/// long JACK keeps listing it. Once a listing leaves it out, JACK has caught
/// up and the name is forgotten, so a port registered later under that name
/// is listed again; so is a name registered again before its removal settled.
///
/// The sets and listings are taken by name: `retired` is what
/// [`RetiredPorts`] holds, and each listing what JACK reports.
pub proof fn law_retired_names_hide_until_jack_catches_up(
    retired: Set<Seq<char>>,
    name: Seq<char>,
    listed: Seq<Seq<char>>,
    later: Seq<Seq<char>>,
    again: Seq<Seq<char>>,
)
    requires
        !later.contains(name),
        again.contains(name),
    ensures
        !listed.filter(|v: Seq<char>| !retired.insert(name).contains(v)).contains(name),
        again.filter(
            |v: Seq<char>|
                !retired.insert(name).intersect(listed.to_set()).intersect(later.to_set()).contains(v),
        ).contains(name),
        again.filter(|v: Seq<char>| !retired.insert(name).remove(name).contains(v)).contains(name),
{
    let hidden = retired.insert(name);
    lemma_filter_members(listed, |v: Seq<char>| !hidden.contains(v), name);
    let settled = hidden.intersect(listed.to_set()).intersect(later.to_set());
    assert(!later.to_set().contains(name));
    lemma_filter_members(again, |v: Seq<char>| !settled.contains(v), name);
    let restored = hidden.remove(name);
    lemma_filter_members(again, |v: Seq<char>| !restored.contains(v), name);
}

/// Whether `ports` holds a port named `port`.
pub fn contains_port(ports: &[PortName], port: &PortName) -> (found: bool)
    ensures
        found == ports@.map_values(|p: PortName| p@).contains(port@),
{
    let ghost views = ports@.map_values(|p: PortName| p@);
    let mut i: usize = 0;
    while i < ports.len()
        invariant
            i <= ports.len(),
            views == ports@.map_values(|p: PortName| p@),
            forall|j: int| 0 <= j < i ==> views[j] != port@,
        decreases ports.len() - i,
    {
        if ports[i].0 == port.0 {
            assert(views[i as int] == port@);
            return true;
        }
        i = i + 1;
    }
    proof {
        if views.contains(port@) {
            let j = choose|j: int| 0 <= j < views.len() && views[j] == port@;
            assert(views[j] != port@);
        }
    }
    false
}

/// The positions below `n` of the names in `listed` that `available` lacks,
/// highest first.
pub open spec fn stale_positions(listed: Seq<Seq<char>>, available: Seq<Seq<char>>, n: nat) -> Seq<
    int,
>
    decreases n,
{
    if n == 0 {
        Seq::empty()
    } else if available.contains(listed[n - 1]) {
        stale_positions(listed, available, (n - 1) as nat)
    } else {
        seq![n - 1] + stale_positions(listed, available, (n - 1) as nat)
    }
}

/// `s` with the elements at `positions` removed, one after the other.
pub open spec fn remove_positions<A>(s: Seq<A>, positions: Seq<int>) -> Seq<A>
    decreases positions.len(),
{
    if positions.len() == 0 {
        s
    } else {
        remove_positions(s.remove(positions[0]), positions.drop_first())
    }
}

/// The stale positions below `n` depend on the first `n` names alone.
proof fn lemma_stale_positions_prefix(
    a: Seq<Seq<char>>,
    b: Seq<Seq<char>>,
    available: Seq<Seq<char>>,
    n: nat,
)
    requires
        n <= a.len(),
        n <= b.len(),
        forall|j: int| 0 <= j < n ==> a[j] == b[j],
    ensures
        stale_positions(a, available, n) == stale_positions(b, available, n),
    decreases n,
{
    if n > 0 {
        lemma_stale_positions_prefix(a, b, available, (n - 1) as nat);
    }
}

/// Removing the stale positions below `n`, highest first, leaves the first
/// `n` names filtered down to the ones on offer, and the rest untouched.
proof fn lemma_remove_stale_positions(listed: Seq<Seq<char>>, available: Seq<Seq<char>>, n: nat)
    requires
        n <= listed.len(),
    ensures
        remove_positions(listed, stale_positions(listed, available, n)) =~= listed.take(n as int).filter(
            |v: Seq<char>| available.contains(v),
        ) + listed.skip(n as int),
    decreases n,
{
    reveal_with_fuel(Seq::<_>::filter, 1);
    let keep = |v: Seq<char>| available.contains(v);
    if n == 0 {
        assert(listed.take(0).filter(keep) =~= Seq::<Seq<char>>::empty());
        assert(listed.skip(0) =~= listed);
    } else {
        let m = (n - 1) as nat;
        assert(listed.take(n as int).drop_last() =~= listed.take(m as int));
        assert(listed.take(n as int).last() == listed[m as int]);
        if available.contains(listed[m as int]) {
            lemma_remove_stale_positions(listed, available, m);
            assert(listed.skip(m as int) =~= seq![listed[m as int]] + listed.skip(n as int));
        } else {
            let shorter = listed.remove(m as int);
            lemma_stale_positions_prefix(listed, shorter, available, m);
            lemma_remove_stale_positions(shorter, available, m);
            assert(shorter.take(m as int) =~= listed.take(m as int));
            assert(shorter.skip(m as int) =~= listed.skip(n as int));
            let positions = stale_positions(listed, available, n);
            assert(positions[0] == m);
            assert(positions.drop_first() =~= stale_positions(listed, available, m));
        }
    }
}

/// Carrying out the edits on the shown list leaves the ports it showed that
/// are still on offer, in the order they were shown, then the new ports in
/// the order they are offered.
pub proof fn law_port_list_edits_reach_the_ports_on_offer(
    listed: Seq<Seq<char>>,
    available: Seq<Seq<char>>,
)
    ensures
        remove_positions(listed, stale_positions(listed, available, listed.len())) + available.filter(
            |v: Seq<char>| !listed.contains(v),
        ) =~= listed.filter(|v: Seq<char>| available.contains(v)) + available.filter(
            |v: Seq<char>| !listed.contains(v),
        ),
{
    lemma_remove_stale_positions(listed, available, listed.len());
    assert(listed.take(listed.len() as int) =~= listed);
    assert(listed.skip(listed.len() as int) =~= Seq::<Seq<char>>::empty());
}

/// How to bring a shown port list in line with the ports on offer: the rows
/// to remove, highest position first so that each removal leaves every
/// earlier position valid, then the ports to append.
#[derive(Debug, Clone)]
pub struct PortListEdits {
    pub removals: Vec<usize>,
    pub appends: Vec<PortName>,
}

/// The edits that take the shown list `listed` to the ports `available`,
/// keeping the rows of the ports still on offer so that a selected row keeps
/// its selection.
pub fn port_list_edits(listed: &[PortName], available: &[PortName]) -> (edits: PortListEdits)
    ensures
        edits.removals@.map_values(|p: usize| p as int) == stale_positions(
            listed@.map_values(|p: PortName| p@),
            available@.map_values(|p: PortName| p@),
            listed@.len(),
        ),
        edits.appends@.map_values(|p: PortName| p@) == available@.map_values(|p: PortName| p@).filter(
            |v: Seq<char>| !listed@.map_values(|p: PortName| p@).contains(v),
        ),
{
    let ghost listed_views = listed@.map_values(|p: PortName| p@);
    let ghost available_views = available@.map_values(|p: PortName| p@);
    let mut removals: Vec<usize> = Vec::new();
    let mut n: usize = listed.len();
    while n > 0
        invariant
            n <= listed@.len(),
            listed_views == listed@.map_values(|p: PortName| p@),
            available_views == available@.map_values(|p: PortName| p@),
            removals@.map_values(|p: usize| p as int) + stale_positions(
                listed_views,
                available_views,
                n as nat,
            ) == stale_positions(listed_views, available_views, listed@.len()),
        decreases n,
    {
        let position = n - 1;
        let ghost before = removals@;
        if !contains_port(available, &listed[position]) {
            removals.push(position);
            proof {
                assert(removals@.map_values(|p: usize| p as int) =~= before.map_values(
                    |p: usize| p as int,
                ).push(position as int));
                assert(stale_positions(listed_views, available_views, n as nat) == seq![
                    position as int,
                ] + stale_positions(listed_views, available_views, position as nat));
                assert(removals@.map_values(|p: usize| p as int) + stale_positions(
                    listed_views,
                    available_views,
                    position as nat,
                ) =~= before.map_values(|p: usize| p as int) + stale_positions(
                    listed_views,
                    available_views,
                    n as nat,
                ));
            }
        }
        n = position;
    }
    proof {
        assert(removals@.map_values(|p: usize| p as int) =~= removals@.map_values(
            |p: usize| p as int,
        ) + stale_positions(listed_views, available_views, 0));
    }
    let mut appends: Vec<PortName> = Vec::new();
    let mut i: usize = 0;
    while i < available.len()
        invariant
            i <= available@.len(),
            listed_views == listed@.map_values(|p: PortName| p@),
            available_views == available@.map_values(|p: PortName| p@),
            appends@.map_values(|p: PortName| p@) == available_views.take(i as int).filter(
                |v: Seq<char>| !listed_views.contains(v),
            ),
        decreases available@.len() - i,
    {
        if !contains_port(listed, &available[i]) {
            appends.push(PortName(available[i].0.clone()));
        }
        proof {
            reveal_with_fuel(Seq::<_>::filter, 1);
            assert(available_views.take(i + 1).drop_last() =~= available_views.take(i as int));
            assert(appends@.map_values(|p: PortName| p@) =~= available_views.take(i + 1).filter(
                |v: Seq<char>| !listed_views.contains(v),
            ));
        }
        i = i + 1;
    }
    proof {
        assert(available_views.take(available_views.len() as int) =~= available_views);
    }
    PortListEdits { removals, appends }
}

/// What a port registration means for the retired names: a name registered
/// again is restored, a name unregistered is retired.
///
/// Returns whether JACK could name the port. An unnamed port has nothing to
/// retire, so a removed one may linger in the list until the next change.
pub fn record_port_registration(
    retired: &mut RetiredPorts,
    port_name: Option<String>,
    is_registered: bool,
) -> (named: bool)
    requires
        old(retired).wf(),
    ensures
        final(retired).wf(),
        named == port_name is Some,
        final(retired)@ == match port_name {
            Some(name) => if is_registered {
                old(retired)@.remove(name@)
            } else {
                old(retired)@.insert(name@)
            },
            None => old(retired)@,
        },
{
    match port_name {
        Some(name) => {
            if is_registered {
                retired.restore(name.as_str());
            } else {
                retired.retire(name);
            }
            true
        },
        None => false,
    }
}

/// Whether a connection between `port_a` and `port_b` touches the source's
/// input port. A port JACK can no longer name counts as touching it: it may
/// be the one that was feeding the input.
pub fn connection_touches_input(
    port_a: &Option<String>,
    port_b: &Option<String>,
    input_port_name: &String,
) -> (touches: bool)
    ensures
        touches == (match port_a {
            Some(name) => name@ == input_port_name@,
            None => true,
        } || match port_b {
            Some(name) => name@ == input_port_name@,
            None => true,
        }),
{
    let touches_a = match port_a {
        Some(name) => *name == *input_port_name,
        None => true,
    };
    let touches_b = match port_b {
        Some(name) => *name == *input_port_name,
        None => true,
    };
    touches_a || touches_b
}

} // verus!
