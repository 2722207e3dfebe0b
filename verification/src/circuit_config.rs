//! The registry record for one generated circuit, and the registry document
//! that maps circuit names to records.

use vstd::prelude::*;

verus! {

/// Registry record of one generated circuit: the file its template was
/// written to, the template's name, and the numeric parameters that
/// instantiate it.
#[derive(Clone, Debug)]
pub struct CircomkitCircuitConfig {
    /// File name containing the circuit template.
    pub file: String,
    /// Circuit template name.
    pub template: String,
    /// Circuit parameters.
    pub params: Vec<usize>,
}

/// The registry document: circuit name to record, one entry per name.
pub struct CircomkitConfig(pub Vec<(String, CircomkitCircuitConfig)>);

/// The record the registry holds under `name`: the first entry so named.
pub open spec fn spec_registry_get(
    entries: Seq<(String, CircomkitCircuitConfig)>,
    name: Seq<char>,
) -> Option<CircomkitCircuitConfig>
    decreases entries.len(),
{
    if entries.len() == 0 {
        None
    } else if entries[0].0@ == name {
        Some(entries[0].1)
    } else {
        spec_registry_get(entries.drop_first(), name)
    }
}

proof fn lemma_registry_get_at(
    entries: Seq<(String, CircomkitCircuitConfig)>,
    name: Seq<char>,
    i: int,
)
    requires
        0 <= i < entries.len(),
        entries[i].0@ == name,
        forall|k: int| 0 <= k < i ==> entries[k].0@ != name,
    ensures
        spec_registry_get(entries, name) == Some(entries[i].1),
    decreases entries.len(),
{
    if i > 0 {
        lemma_registry_get_at(entries.drop_first(), name, i - 1);
    }
}

proof fn lemma_registry_get_none(entries: Seq<(String, CircomkitCircuitConfig)>, name: Seq<char>)
    requires
        forall|k: int| 0 <= k < entries.len() ==> entries[k].0@ != name,
    ensures
        spec_registry_get(entries, name) == None::<CircomkitCircuitConfig>,
    decreases entries.len(),
{
    if entries.len() > 0 {
        lemma_registry_get_none(entries.drop_first(), name);
    }
}

impl CircomkitConfig {
    /// What the registry answers for `name`.
    pub open spec fn spec_get(&self, name: Seq<char>) -> Option<CircomkitCircuitConfig> {
        spec_registry_get(self.0@, name)
    }

    /// An empty registry.
    pub fn new() -> (r: CircomkitConfig)
        ensures
            r.0@.len() == 0,
    {
        CircomkitConfig(Vec::new())
    }

    /// Writes `config` under `name`: replaces the existing entry so named,
    /// or appends one; every other name keeps its record (last write wins).
    #[verifier::loop_isolation(false)]
    pub fn upsert(&mut self, name: String, config: CircomkitCircuitConfig)
        ensures
            final(self).spec_get(name@) == Some(config),
            forall|other: Seq<char>|
                other != name@ ==> final(self).spec_get(other) == old(self).spec_get(other),
    {
        let n = self.0.len();
        let mut i: usize = 0;
        while i < n
            invariant
                i <= n,
                n == self.0@.len(),
                self.0 == old(self).0,
                forall|k: int| 0 <= k < i as int ==> self.0@[k].0@ != name@,
            decreases n - i,
        {
            if self.0[i].0 == name {
                let ghost pre = self.0@;
                self.0[i].1 = config;
                proof {
                    let post = self.0@;
                    lemma_registry_get_at(post, name@, i as int);
                    assert forall|other: Seq<char>|
                        other != name@ implies spec_registry_get(post, other) == spec_registry_get(
                        pre,
                        other,
                    ) by {
                        lemma_registry_swap_irrelevant(pre, post, other, i as int);
                    }
                }
                return ;
            }
            i += 1;
        }
        let ghost pre = self.0@;
        self.0.push((name, config));
        proof {
            let post = self.0@;
            lemma_registry_get_at(post, name@, n as int);
            assert forall|other: Seq<char>|
                other != name@ implies spec_registry_get(post, other) == spec_registry_get(
                pre,
                other,
            ) by {
                lemma_registry_push_irrelevant(pre, post, other);
            }
        }
    }
}

/// Replacing the record at one position whose name differs from `other`
/// leaves what the registry answers for `other` unchanged.
proof fn lemma_registry_swap_irrelevant(
    pre: Seq<(String, CircomkitCircuitConfig)>,
    post: Seq<(String, CircomkitCircuitConfig)>,
    other: Seq<char>,
    i: int,
)
    requires
        pre.len() == post.len(),
        0 <= i < pre.len(),
        post[i].0@ != other,
        pre[i].0 == post[i].0,
        forall|k: int| 0 <= k < pre.len() && k != i ==> pre[k] == post[k],
    ensures
        spec_registry_get(pre, other) == spec_registry_get(post, other),
    decreases pre.len(),
{
    if i == 0 {
        assert(pre.drop_first() =~= post.drop_first());
    } else {
        lemma_registry_swap_irrelevant(pre.drop_first(), post.drop_first(), other, i - 1);
    }
}

/// Appending a record under a different name leaves what the registry
/// answers for `other` unchanged.
proof fn lemma_registry_push_irrelevant(
    pre: Seq<(String, CircomkitCircuitConfig)>,
    post: Seq<(String, CircomkitCircuitConfig)>,
    other: Seq<char>,
)
    requires
        post.len() == pre.len() + 1,
        forall|k: int| 0 <= k < pre.len() ==> pre[k] == post[k],
        post.last().0@ != other,
    ensures
        spec_registry_get(pre, other) == spec_registry_get(post, other),
    decreases pre.len(),
{
    if pre.len() == 0 {
    } else {
        lemma_registry_push_irrelevant(pre.drop_first(), post.drop_first(), other);
    }
}

} // verus!
