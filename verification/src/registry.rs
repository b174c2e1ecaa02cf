//! The registry: the nodes the manager knows, each under a name.
//!
//! Entries are kept in the order in which they were added, and no name
//! occurs twice, so the registry is a finite map from names to nodes.

use crate::node::{case_converted, chain_arg, Node, NodeView, TextCase};
use crate::profile::Profile;
use crate::service::{
    disable_steps, enable_steps, step_views, unit_text, unit_write, FileWriteView, InvocationView, Step,
    StepView,
};
use vstd::prelude::*;

verus! {

/// A registry's entries: names with their nodes.
pub type Entries = Seq<(Seq<char>, NodeView)>;

/// No name occurs twice.
pub open spec fn keys_distinct(e: Entries) -> bool {
    forall|i: int, j: int| 0 <= i < j < e.len() ==> e[i].0 != e[j].0
}

/// Some entry has the name `k`.
pub open spec fn has_key(e: Entries, k: Seq<char>) -> bool {
    exists|i: int| 0 <= i < e.len() && e[i].0 == k
}

/// The position of the entry named `k`.
pub open spec fn key_index(e: Entries, k: Seq<char>) -> int {
    choose|i: int| 0 <= i < e.len() && e[i].0 == k
}

/// The entries as a map from names to nodes.
pub open spec fn as_map(e: Entries) -> Map<Seq<char>, NodeView> {
    Map::new(|k: Seq<char>| has_key(e, k), |k: Seq<char>| e[key_index(e, k)].1)
}

/// The entries after adding `n` under its own name: a name that is taken
/// leaves them as they are.
pub open spec fn with_node(e: Entries, n: NodeView) -> Entries {
    if has_key(e, n.name) {
        e
    } else {
        e.push((n.name, n))
    }
}

/// The entries after `n` is stored under `k`, replacing what `k` held.
pub open spec fn with_entry(e: Entries, k: Seq<char>, n: NodeView) -> Entries {
    if has_key(e, k) {
        e.update(key_index(e, k), (k, n))
    } else {
        e.push((k, n))
    }
}

/// The entries after the one named `k` is taken out; the others keep their order.
pub open spec fn without_key(e: Entries, k: Seq<char>) -> Entries {
    if has_key(e, k) {
        e.remove(key_index(e, k))
    } else {
        e
    }
}

/// The entries that storing each of `s` in turn makes of an empty registry.
pub open spec fn collected(s: Entries) -> Entries
    decreases s.len(),
{
    if s.len() == 0 {
        Seq::empty()
    } else {
        with_entry(collected(s.drop_last()), s.last().0, s.last().1)
    }
}

/// The names, in order, each followed by a space but the last.
pub open spec fn joined_keys(e: Entries) -> Seq<char>
    decreases e.len(),
{
    if e.len() == 0 {
        Seq::empty()
    } else if e.len() == 1 {
        e[0].0
    } else {
        joined_keys(e.drop_last()) + seq![' '] + e.last().0
    }
}

/// Starting every node: for each, in order, its unit file is written and its
/// service enabled.
pub open spec fn all_enable_steps(e: Entries, profile: Profile) -> Seq<StepView>
    decreases e.len(),
{
    if e.len() == 0 {
        Seq::empty()
    } else {
        all_enable_steps(e.drop_last(), profile) + seq![
            StepView::Write(unit_write(e.last().1, profile)),
        ] + enable_steps(e.last().1, profile)
    }
}

/// Stopping every node: for each, in order, its unit file is written and its
/// service disabled.
pub open spec fn all_disable_steps(e: Entries, profile: Profile) -> Seq<StepView>
    decreases e.len(),
{
    if e.len() == 0 {
        Seq::empty()
    } else {
        all_disable_steps(e.drop_last(), profile) + seq![
            StepView::Write(unit_write(e.last().1, profile)),
        ] + disable_steps(e.last().1, profile)
    }
}

/// The nodes the manager knows, each under a name.
#[derive(Debug)]
pub struct Registry {
    nodes: Vec<(String, Node)>,
}

pub open spec fn entry_view(e: (String, Node)) -> (Seq<char>, NodeView) {
    (e.0@, e.1@)
}

impl View for Registry {
    type V = Entries;

    closed spec fn view(&self) -> Entries {
        entries_of(self.nodes@)
    }
}

/// The views of stored entries.
pub open spec fn entries_of(nodes: Seq<(String, Node)>) -> Entries {
    nodes.map_values(|e: (String, Node)| entry_view(e))
}

/// The position of the entry named `name` among `nodes`, if there is one.
fn find(nodes: &Vec<(String, Node)>, name: &String) -> (r: Option<usize>)
    ensures
        match r {
            Some(i) => i < nodes@.len() && entries_of(nodes@)[i as int].0 == name@,
            None => !has_key(entries_of(nodes@), name@),
        },
{
    let mut i: usize = 0;
    while i < nodes.len()
        invariant
            i <= nodes.len(),
            forall|j: int| 0 <= j < i ==> entries_of(nodes@)[j].0 != name@,
        decreases nodes.len() - i,
    {
        if nodes[i].0 == *name {
            return Some(i);
        }
        i = i + 1;
    }
    None
}

impl Registry {
    #[verifier::type_invariant]
    closed spec fn names_unique(self) -> bool {
        keys_distinct(self@)
    }

    /// The entries, in the order in which they were stored.
    pub fn entries(&self) -> (r: &Vec<(String, Node)>)
        ensures
            entries_of(r@) == self@,
    {
        &self.nodes
    }

    /// The number of nodes.
    pub fn len(&self) -> (n: usize)
        ensures
            n == self@.len(),
    {
        self.nodes.len()
    }

    /// The node stored under `name`.
    pub fn get(&self, name: &str) -> (r: Option<&Node>)
        ensures
            keys_distinct(self@),
            match r {
                Some(n) => has_key(self@, name@) && as_map(self@)[name@] == n@,
                None => !has_key(self@, name@),
            },
    {
        proof {
            use_type_invariant(self);
        }
        let key = name.to_owned();
        match find(&self.nodes, &key) {
            Some(i) => {
                proof {
                    lemma_key_index_unique(self@, name@, i as int);
                }
                Some(&self.nodes[i].1)
            },
            None => None,
        }
    }

    /// Stores `node` under `name`, replacing the node that `name` held.
    pub fn insert(&mut self, name: String, node: Node)
        ensures
            final(self)@ == with_entry(old(self)@, name@, node@),
            keys_distinct(final(self)@),
    {
        proof {
            use_type_invariant(&*self);
        }
        let mut nodes: Vec<(String, Node)> = Vec::new();
        std::mem::swap(&mut nodes, &mut self.nodes);
        let ghost old_view = entries_of(nodes@);
        assert(old_view == old(self)@);
        proof {
            lemma_with_entry_distinct(old_view, name@, node@);
        }
        let ghost entry = (name@, node@);
        match find(&nodes, &name) {
            Some(i) => {
                proof {
                    lemma_key_index_unique(old_view, name@, i as int);
                }
                nodes.set(i, (name, node));
                assert(entries_of(nodes@) =~= old_view.update(i as int, entry));
            },
            None => {
                nodes.push((name, node));
                assert(entries_of(nodes@) =~= old_view.push(entry));
            },
        }
        self.nodes = nodes;
    }

    /// Adds `node` under its own name, unless a node of that name is known;
    /// tells whether it was added.
    pub fn add_node(&mut self, node: &Node) -> (added: bool)
        ensures
            added == !has_key(old(self)@, node.name@),
            final(self)@ == with_node(old(self)@, node@),
            keys_distinct(final(self)@),
    {
        proof {
            use_type_invariant(&*self);
        }
        let name = node.name.clone();
        match find(&self.nodes, &name) {
            Some(_) => false,
            None => {
                self.insert(name, node.copied());
                true
            },
        }
    }

    /// Takes out the node named `name`, if there is one, and hands it back.
    pub fn remove_node(&mut self, name: &str) -> (removed: Option<Node>)
        ensures
            keys_distinct(old(self)@),
            keys_distinct(final(self)@),
            final(self)@ == without_key(old(self)@, name@),
            match removed {
                Some(n) => has_key(old(self)@, name@) && n@ == as_map(old(self)@)[name@],
                None => !has_key(old(self)@, name@),
            },
    {
        proof {
            use_type_invariant(&*self);
        }
        let mut nodes: Vec<(String, Node)> = Vec::new();
        std::mem::swap(&mut nodes, &mut self.nodes);
        let ghost old_view = entries_of(nodes@);
        assert(old_view == old(self)@);
        let key = name.to_owned();
        match find(&nodes, &key) {
            Some(i) => {
                proof {
                    lemma_key_index_unique(old_view, name@, i as int);
                    lemma_without_key_distinct(old_view, name@);
                }
                let entry = nodes.remove(i);
                assert(entries_of(nodes@) =~= old_view.remove(i as int));
                self.nodes = nodes;
                Some(entry.1)
            },
            None => {
                self.nodes = nodes;
                None
            },
        }
    }

    /// Builds a registry by storing each entry in turn; a later entry under
    /// a name replaces an earlier one.
    pub fn from_entries(entries: Vec<(String, Node)>) -> (r: Registry)
        ensures
            r@ == collected(entries_of(entries@)),
            keys_distinct(r@),
    {
        let ghost s = entries_of(entries@);
        let mut r = Registry { nodes: Vec::new() };
        assert(r@ =~= collected(s.take(0)));
        let mut i: usize = 0;
        while i < entries.len()
            invariant
                i <= entries.len(),
                s == entries_of(entries@),
                r@ == collected(s.take(i as int)),
            decreases entries.len() - i,
        {
            let name = entries[i].0.clone();
            let node = entries[i].1.copied();
            proof {
                assert(s.take(i + 1).drop_last() =~= s.take(i as int));
                assert(s.take(i + 1).last() == s[i as int]);
            }
            r.insert(name, node);
            i = i + 1;
        }
        assert(s.take(entries.len() as int) =~= s);
        proof {
            use_type_invariant(&r);
        }
        r
    }

    /// The names of the nodes, separated by spaces.
    pub fn list(&self) -> (s: String)
        ensures
            s@ == joined_keys(self@),
    {
        let mut s = String::new();
        let mut i: usize = 0;
        while i < self.nodes.len()
            invariant
                i <= self.nodes.len(),
                                s@ == joined_keys(self@.take(i as int)),
            decreases self.nodes.len() - i,
        {
            if i > 0 {
                s.append(" ");
            }
            s.append(self.nodes[i].0.as_str());
            proof {
                let t = self@.take(i + 1);
                assert(t.drop_last() =~= self@.take(i as int));
                if i == 0 {
                    assert(t.len() == 1);
                } else {
                    reveal_strlit(" ");
                }
            }
            i = i + 1;
        }
        assert(self@.take(self.nodes.len() as int) =~= self@);
        s
    }

    /// Starting every node: the unit file of each is written, and its
    /// service enabled.
    pub fn enable_all_service(&self, profile: Profile) -> (steps: Vec<Step>)
        ensures
            step_views(steps@) == all_enable_steps(self@, profile),
    {
        let mut steps: Vec<Step> = Vec::new();
        let mut i: usize = 0;
        while i < self.nodes.len()
            invariant
                i <= self.nodes.len(),
                                step_views(steps@) == all_enable_steps(self@.take(i as int), profile),
            decreases self.nodes.len() - i,
        {
            let node = &self.nodes[i].1;
            let ghost before = steps@;
            steps.push(Step::Write(node.gen_service_file(profile)));
            let mut more = node.enable_service(profile);
            let ghost more_v = more@;
            steps.append(&mut more);
            proof {
                let t = self@.take(i + 1);
                assert(t.drop_last() =~= self@.take(i as int));
                assert(step_views(steps@) =~= step_views(before) + seq![
                    StepView::Write(unit_write(node@, profile)),
                ] + step_views(more_v));
            }
            i = i + 1;
        }
        assert(self@.take(self.nodes.len() as int) =~= self@);
        steps
    }

    /// Stopping every node: the unit file of each is written, and its
    /// service disabled.
    pub fn disable_all_service(&self, profile: Profile) -> (steps: Vec<Step>)
        ensures
            step_views(steps@) == all_disable_steps(self@, profile),
    {
        let mut steps: Vec<Step> = Vec::new();
        let mut i: usize = 0;
        while i < self.nodes.len()
            invariant
                i <= self.nodes.len(),
                                step_views(steps@) == all_disable_steps(self@.take(i as int), profile),
            decreases self.nodes.len() - i,
        {
            let node = &self.nodes[i].1;
            let ghost before = steps@;
            steps.push(Step::Write(node.gen_service_file(profile)));
            let mut more = node.disable_service(profile);
            let ghost more_v = more@;
            steps.append(&mut more);
            proof {
                let t = self@.take(i + 1);
                assert(t.drop_last() =~= self@.take(i as int));
                assert(step_views(steps@) =~= step_views(before) + seq![
                    StepView::Write(unit_write(node@, profile)),
                ] + step_views(more_v));
            }
            i = i + 1;
        }
        assert(self@.take(self.nodes.len() as int) =~= self@);
        steps
    }
}

impl Default for Registry {
    /// An empty registry.
    fn default() -> (r: Registry)
        ensures
            r@ == Seq::<(Seq<char>, NodeView)>::empty(),
    {
        let r = Registry { nodes: Vec::new() };
        assert(r@ =~= Seq::<(Seq<char>, NodeView)>::empty());
        r
    }
}


/// Removing the node that was just added under a fresh name gives back the
/// registry as it was.
pub proof fn lemma_add_then_remove(e: Entries, n: NodeView)
    requires
        keys_distinct(e),
        !has_key(e, n.name),
    ensures
        without_key(with_node(e, n), n.name) == e,
{
    let f = e.push((n.name, n));
    lemma_key_index_unique(f, n.name, e.len() as int);
    assert(f.remove(e.len() as int) =~= e);
}

/// Adding the same node twice is the same as adding it once.
pub proof fn lemma_add_node_idempotent(e: Entries, n: NodeView)
    ensures
        with_node(with_node(e, n), n) == with_node(e, n),
{
    if !has_key(e, n.name) {
        let f = e.push((n.name, n));
        assert(f[e.len() as int].0 == n.name);
        assert(has_key(f, n.name));
    }
}

/// After a node is added, its name finds it, unless the name was taken, in
/// which case nothing changes.
pub proof fn lemma_add_node_lookup(e: Entries, n: NodeView)
    requires
        keys_distinct(e),
    ensures
        as_map(with_node(e, n)) == (if has_key(e, n.name) {
            as_map(e)
        } else {
            as_map(e).insert(n.name, n)
        }),
{
    if !has_key(e, n.name) {
        lemma_insert_lookup(e, n.name, n);
    }
}

/// Storing a node under a name makes the name find it, and leaves every
/// other name as it was.
pub proof fn lemma_insert_lookup(e: Entries, k: Seq<char>, n: NodeView)
    requires
        keys_distinct(e),
    ensures
        keys_distinct(with_entry(e, k, n)),
        as_map(with_entry(e, k, n)) == as_map(e).insert(k, n),
{
    lemma_with_entry_distinct(e, k, n);
    let f = with_entry(e, k, n);
    let target = as_map(e).insert(k, n);
    if has_key(e, k) {
        let j = key_index(e, k);
        assert forall|q: Seq<char>| has_key(f, q) <==> target.dom().contains(q) by {
            if has_key(e, q) {
                let i = key_index(e, q);
                assert(f[i].0 == q);
            }
            if has_key(f, q) {
                let i = key_index(f, q);
                assert(i == j || e[i].0 == q);
            }
        }
        assert forall|q: Seq<char>| has_key(f, q) implies as_map(f)[q] == target[q] by {
            let i = key_index(f, q);
            if q == k {
                lemma_key_index_unique(f, k, j);
            } else {
                assert(e[i].0 == q);
                lemma_key_index_unique(e, q, i);
                lemma_key_index_unique(f, q, i);
            }
        }
    } else {
        let last = e.len() as int;
        assert forall|q: Seq<char>| has_key(f, q) <==> target.dom().contains(q) by {
            assert(f[last].0 == k);
            if has_key(e, q) {
                let i = key_index(e, q);
                assert(f[i].0 == q);
            }
            if has_key(f, q) {
                let i = key_index(f, q);
                assert(i == last || e[i].0 == q);
            }
        }
        assert forall|q: Seq<char>| has_key(f, q) implies as_map(f)[q] == target[q] by {
            let i = key_index(f, q);
            if q == k {
                lemma_key_index_unique(f, k, last);
            } else {
                assert(e[i].0 == q);
                lemma_key_index_unique(e, q, i);
                lemma_key_index_unique(f, q, i);
            }
        }
    }
    assert(as_map(f) =~= target);
}

/// After a name is removed, it finds nothing, and every other name finds
/// what it found before.
pub proof fn lemma_remove_lookup(e: Entries, k: Seq<char>)
    requires
        keys_distinct(e),
    ensures
        keys_distinct(without_key(e, k)),
        as_map(without_key(e, k)) == as_map(e).remove(k),
{
    lemma_without_key_distinct(e, k);
    let f = without_key(e, k);
    let target = as_map(e).remove(k);
    if has_key(e, k) {
        let j = key_index(e, k);
        assert forall|q: Seq<char>| has_key(f, q) <==> target.dom().contains(q) by {
            if has_key(e, q) && q != k {
                let i = key_index(e, q);
                if i < j {
                    assert(f[i].0 == q);
                } else {
                    assert(f[i - 1].0 == q);
                }
            }
            if has_key(f, q) {
                let i = key_index(f, q);
                let i2 = if i < j { i } else { i + 1 };
                assert(f[i] == e[i2]);
                assert(i2 != j);
            }
        }
        assert forall|q: Seq<char>| has_key(f, q) implies as_map(f)[q] == target[q] by {
            let i = key_index(f, q);
            let i2 = if i < j { i } else { i + 1 };
            assert(f[i] == e[i2]);
            lemma_key_index_unique(e, q, i2);
        }
    }
    assert(as_map(f) =~= target);
}

/// Starting every node takes four steps per node, as does stopping every node.
pub proof fn lemma_all_steps_len(e: Entries, profile: Profile)
    ensures
        all_enable_steps(e, profile).len() == 4 * e.len(),
        all_disable_steps(e, profile).len() == 4 * e.len(),
    decreases e.len(),
{
    if e.len() > 0 {
        lemma_all_steps_len(e.drop_last(), profile);
    }
}

/// The unit of the node called `name`, and the file that holds it.
proof fn lemma_unit_paths(name: Seq<char>, profile: Profile)
    ensures
        crate::service::unit_name(name) == "selendra."@ + name + ".service"@,
        crate::service::unit_file(name, profile) == match profile {
            Profile::Debug => "selendra."@ + name + ".service"@,
            Profile::Release => "/etc/systemd/system/"@ + ("selendra."@ + name + ".service"@),
        },
{
}

/// Starting every node writes, checks and enables each node's own unit, in
/// the order of the entries: the four steps from `4 * i` are, for the node of
/// entry `i`, the writing of its unit file, the check of its unit, the
/// writing of its unit file once more, and `sudo systemctl enable --now` of
/// its unit.
pub proof fn lemma_enable_all_each_node(e: Entries, profile: Profile, i: int)
    requires
        0 <= i < e.len(),
    ensures
        ({
            let s = all_enable_steps(e, profile);
            let n = e[i].1;
            let unit = "selendra."@ + n.name + ".service"@;
            let file = match profile {
                Profile::Debug => unit,
                Profile::Release => "/etc/systemd/system/"@ + unit,
            };
            let write = FileWriteView {
                path: file,
                contents: unit_text(case_converted(n.name, TextCase::Title), n.path, chain_arg(n.chain)),
            };
            &&& s.len() == 4 * e.len()
            &&& s[4 * i] == StepView::Write(write)
            &&& s[4 * i + 1] == StepView::Query(
                InvocationView { program: "systemctl"@, args: seq!["is-enable"@, unit] },
            )
            &&& s[4 * i + 2] == StepView::WriteOrReport(write)
            &&& s[4 * i + 3] == StepView::Run(
                InvocationView {
                    program: "sudo"@,
                    args: seq!["systemctl"@, "enable"@, "--now"@, unit],
                },
            )
        }),
    decreases e.len(),
{
    lemma_all_steps_len(e, profile);
    let d = e.drop_last();
    lemma_all_steps_len(d, profile);
    lemma_unit_paths(e[i].1.name, profile);
    let s = all_enable_steps(e, profile);
    let head = all_enable_steps(d, profile);
    assert(s == head + seq![StepView::Write(unit_write(e.last().1, profile))] + enable_steps(
        e.last().1,
        profile,
    ));
    if i < e.len() - 1 {
        lemma_enable_all_each_node(d, profile, i);
        assert(d[i] == e[i]);
        assert(s[4 * i] == head[4 * i]);
        assert(s[4 * i + 1] == head[4 * i + 1]);
        assert(s[4 * i + 2] == head[4 * i + 2]);
        assert(s[4 * i + 3] == head[4 * i + 3]);
    } else {
        assert(e.last() == e[i]);
        assert(s[4 * i] == StepView::Write(unit_write(e[i].1, profile)));
        assert(s[4 * i + 1] == enable_steps(e[i].1, profile)[0]);
        assert(s[4 * i + 2] == enable_steps(e[i].1, profile)[1]);
        assert(s[4 * i + 3] == enable_steps(e[i].1, profile)[2]);
    }
}

/// Stopping every node writes, checks, disables and deletes each node's own
/// unit, in the order of the entries: the four steps from `4 * i` are, for
/// the node of entry `i`, the writing of its unit file, the check of its
/// unit, `sudo systemctl disable --now` of its unit, and the deletion of its
/// unit file.
pub proof fn lemma_disable_all_each_node(e: Entries, profile: Profile, i: int)
    requires
        0 <= i < e.len(),
    ensures
        ({
            let s = all_disable_steps(e, profile);
            let n = e[i].1;
            let unit = "selendra."@ + n.name + ".service"@;
            let file = match profile {
                Profile::Debug => unit,
                Profile::Release => "/etc/systemd/system/"@ + unit,
            };
            &&& s.len() == 4 * e.len()
            &&& s[4 * i] == StepView::Write(
                FileWriteView {
                    path: file,
                    contents: unit_text(
                        case_converted(n.name, TextCase::Title),
                        n.path,
                        chain_arg(n.chain),
                    ),
                },
            )
            &&& s[4 * i + 1] == StepView::Query(
                InvocationView { program: "systemctl"@, args: seq!["is-enable"@, unit] },
            )
            &&& s[4 * i + 2] == StepView::Run(
                InvocationView {
                    program: "sudo"@,
                    args: seq!["systemctl"@, "disable"@, "--now"@, unit],
                },
            )
            &&& s[4 * i + 3] == StepView::Run(
                InvocationView { program: "sudo"@, args: seq!["rm"@, "-rf"@, "--now"@, file] },
            )
        }),
    decreases e.len(),
{
    lemma_all_steps_len(e, profile);
    let d = e.drop_last();
    lemma_all_steps_len(d, profile);
    lemma_unit_paths(e[i].1.name, profile);
    let s = all_disable_steps(e, profile);
    let head = all_disable_steps(d, profile);
    assert(s == head + seq![StepView::Write(unit_write(e.last().1, profile))] + disable_steps(
        e.last().1,
        profile,
    ));
    if i < e.len() - 1 {
        lemma_disable_all_each_node(d, profile, i);
        assert(d[i] == e[i]);
        assert(s[4 * i] == head[4 * i]);
        assert(s[4 * i + 1] == head[4 * i + 1]);
        assert(s[4 * i + 2] == head[4 * i + 2]);
        assert(s[4 * i + 3] == head[4 * i + 3]);
    } else {
        assert(e.last() == e[i]);
        assert(s[4 * i] == StepView::Write(unit_write(e[i].1, profile)));
        assert(s[4 * i + 1] == disable_steps(e[i].1, profile)[0]);
        assert(s[4 * i + 2] == disable_steps(e[i].1, profile)[1]);
        assert(s[4 * i + 3] == disable_steps(e[i].1, profile)[2]);
    }
}

/// Storing, in turn, the entries of a registry whose names are distinct
/// builds that registry again, in the same order.
pub proof fn lemma_collected_entries(e: Entries)
    requires
        keys_distinct(e),
    ensures
        collected(e) == e,
    decreases e.len(),
{
    if e.len() > 0 {
        let d = e.drop_last();
        assert(keys_distinct(d)) by {
            assert forall|i: int, j: int| 0 <= i < j < d.len() implies d[i].0 != d[j].0 by {
                assert(d[i] == e[i] && d[j] == e[j]);
            }
        }
        lemma_collected_entries(d);
        if has_key(d, e.last().0) {
            let i = key_index(d, e.last().0);
            assert(d[i] == e[i]);
            assert(false);
        }
        assert(d.push(e.last()) =~= e);
    }
}

proof fn lemma_key_index_unique(e: Entries, k: Seq<char>, i: int)
    requires
        keys_distinct(e),
        0 <= i < e.len(),
        e[i].0 == k,
    ensures
        has_key(e, k),
        key_index(e, k) == i,
        as_map(e)[k] == e[i].1,
{
    assert(has_key(e, k));
}

proof fn lemma_with_entry_distinct(e: Entries, k: Seq<char>, n: NodeView)
    requires
        keys_distinct(e),
    ensures
        keys_distinct(with_entry(e, k, n)),
{
    if has_key(e, k) {
        let j = key_index(e, k);
        let f = with_entry(e, k, n);
        assert forall|a: int, b: int| 0 <= a < b < f.len() implies f[a].0 != f[b].0 by {
            assert(f[a].0 == e[a].0);
            assert(f[b].0 == e[b].0);
        }
    } else {
        let f = with_entry(e, k, n);
        assert forall|a: int, b: int| 0 <= a < b < f.len() implies f[a].0 != f[b].0 by {
            if b == e.len() {
                assert(f[a].0 == e[a].0);
            }
        }
    }
}

proof fn lemma_without_key_distinct(e: Entries, k: Seq<char>)
    requires
        keys_distinct(e),
    ensures
        keys_distinct(without_key(e, k)),
{
    if has_key(e, k) {
        let j = key_index(e, k);
        let f = without_key(e, k);
        assert forall|a: int, b: int| 0 <= a < b < f.len() implies f[a].0 != f[b].0 by {
            let a2 = if a < j { a } else { a + 1 };
            let b2 = if b < j { b } else { b + 1 };
            assert(f[a] == e[a2]);
            assert(f[b] == e[b2]);
        }
    }
}

} // verus!
