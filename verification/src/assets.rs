use vstd::prelude::*;

verus! {

/// The error returned when a registry lookup finds nothing under the path.
#[derive(Debug, Clone, Copy, PartialEq, Eq, Structural)]
pub struct ErrNotFound {}

impl ErrNotFound {
    /// A short human-readable description of the error.
    pub fn describe(&self) -> (s: &'static str)
        ensures
            s@.len() > 0,
    {
        proof {
            reveal_strlit("asset not found in registry");
        }
        "asset not found in registry"
    }
}

/// An in-memory store of assets by path: bytes loaded once at startup and
/// looked up by the presentation layer. Paths are unique; inserting under an
/// existing path replaces the bytes.
pub struct Registry {
    pub entries: Vec<(String, Vec<u8>)>,
}

/// The index of the entry whose key spells `path`, if any.
pub open spec fn find_key(entries: Seq<(String, Vec<u8>)>, path: Seq<char>) -> int
    decreases entries.len(),
{
    if entries.len() == 0 {
        -1
    } else if entries[0].0@ == path {
        0
    } else {
        let rest = find_key(entries.drop_first(), path);
        if rest < 0 {
            -1
        } else {
            1 + rest
        }
    }
}

proof fn lemma_find_key(entries: Seq<(String, Vec<u8>)>, path: Seq<char>)
    ensures
        find_key(entries, path) >= 0 ==> {
            &&& find_key(entries, path) < entries.len()
            &&& entries[find_key(entries, path)].0@ == path
            &&& forall|i: int| 0 <= i < find_key(entries, path) ==> (#[trigger] entries[i]).0@ != path
        },
        find_key(entries, path) < 0 ==> find_key(entries, path) == -1 && forall|i: int|
            0 <= i < entries.len() ==> (#[trigger] entries[i]).0@ != path,
    decreases entries.len(),
{
    if entries.len() > 0 && entries[0].0@ != path {
        lemma_find_key(entries.drop_first(), path);
        let rest = find_key(entries.drop_first(), path);
        assert forall|i: int| 1 <= i < entries.len() implies entries.drop_first()[i - 1]
            == (#[trigger] entries[i]) by {}
    }
}

impl Registry {
    /// What the registry stores under a path, if anything.
    pub open spec fn spec_get(self, path: Seq<char>) -> Option<Seq<u8>> {
        let i = find_key(self.entries@, path);
        if i >= 0 {
            Some(self.entries@[i].1@)
        } else {
            None
        }
    }

    /// Start an empty registry.
    pub fn new() -> (registry: Registry)
        ensures
            forall|path: Seq<char>| #[trigger] registry.spec_get(path) is None,
    {
        Registry { entries: Vec::new() }
    }

    /// Store `bytes` under `path`, replacing whatever the path held before.
    #[verifier::loop_isolation(false)]
    pub fn insert(&mut self, path: &str, bytes: Vec<u8>)
        ensures
            final(self).spec_get(path@) == Some(bytes@),
            forall|other: Seq<char>|
                other != path@ ==> #[trigger] final(self).spec_get(other) == old(self).spec_get(
                    other,
                ),
    {
        let key = path.to_owned();
        let n = self.entries.len();
        let mut i: usize = 0;
        while i < n
            invariant
                i <= n,
                n == self.entries@.len(),
                *self == *old(self),
                key@ == path@,
                forall|j: int| 0 <= j < i ==> (#[trigger] self.entries@[j]).0@ != path@,
            decreases n - i,
        {
            if self.entries[i].0 == key {
                self.entries[i] = (key, bytes);
                proof {
                    lemma_find_key(old(self).entries@, path@);
                    lemma_find_key(self.entries@, path@);
                    assert(find_key(self.entries@, path@) == i) by {
                        lemma_find_key_prefix(self.entries@, path@, i as int);
                    }
                    assert forall|other: Seq<char>|
                        other != path@ implies #[trigger] self.spec_get(other) == old(
                        self,
                    ).spec_get(other) by {
                        assert(old(self).entries@[i as int].0@ == path@);
                        lemma_find_key_update(old(self).entries@, self.entries@, path@, other);
                    }
                }
                return ;
            }
            i += 1;
        }
        self.entries.push((key, bytes));
        proof {
            lemma_find_key(old(self).entries@, path@);
            assert(find_key(self.entries@, path@) == n as int) by {
                lemma_find_key_prefix(self.entries@, path@, n as int);
            }
            assert forall|other: Seq<char>|
                other != path@ implies #[trigger] self.spec_get(other) == old(self).spec_get(
                other,
            ) by {
                lemma_find_key_push(old(self).entries@, (key, bytes), other);
            }
        }
    }

    /// Look up the bytes stored under `path`.
    #[verifier::loop_isolation(false)]
    pub fn get(&self, path: &str) -> (r: Result<&Vec<u8>, ErrNotFound>)
        ensures
            match r {
                Ok(bytes) => self.spec_get(path@) == Some(bytes@),
                Err(_) => self.spec_get(path@) is None,
            },
    {
        let key = path.to_owned();
        let n = self.entries.len();
        let mut i: usize = 0;
        while i < n
            invariant
                i <= n,
                n == self.entries@.len(),
                key@ == path@,
                forall|j: int| 0 <= j < i ==> (#[trigger] self.entries@[j]).0@ != path@,
            decreases n - i,
        {
            if self.entries[i].0 == key {
                proof {
                    lemma_find_key_prefix(self.entries@, path@, i as int);
                }
                return Ok(&self.entries[i].1);
            }
            i += 1;
        }
        proof {
            lemma_find_key(self.entries@, path@);
        }
        Err(ErrNotFound {})
    }
}

/// If the first `i` keys miss and key `i` matches, the scan finds `i`.
proof fn lemma_find_key_prefix(entries: Seq<(String, Vec<u8>)>, path: Seq<char>, i: int)
    requires
        0 <= i < entries.len(),
        entries[i].0@ == path,
        forall|j: int| 0 <= j < i ==> (#[trigger] entries[j]).0@ != path,
    ensures
        find_key(entries, path) == i,
    decreases i,
{
    if i > 0 {
        lemma_find_key_prefix(entries.drop_first(), path, i - 1);
    }
}

/// Replacing the value stored under `changed` leaves every other key's
/// lookup alone.
proof fn lemma_find_key_update(
    pre: Seq<(String, Vec<u8>)>,
    post: Seq<(String, Vec<u8>)>,
    changed: Seq<char>,
    other: Seq<char>,
)
    requires
        pre.len() == post.len(),
        forall|j: int| 0 <= j < pre.len() ==> (#[trigger] post[j]).0@ == pre[j].0@,
        forall|j: int| 0 <= j < pre.len() ==> (#[trigger] pre[j]).0@ == changed || pre[j] == post[j],
        other != changed,
    ensures
        ({
            let i0 = find_key(pre, other);
            let i1 = find_key(post, other);
            &&& i0 == i1
            &&& i0 >= 0 ==> post[i1].1@ == pre[i0].1@
        }),
    decreases pre.len(),
{
    lemma_find_key(pre, other);
    lemma_find_key(post, other);
    if pre.len() > 0 {
        assert(post[0].0@ == pre[0].0@);
        if pre[0].0@ != other {
            assert forall|j: int|
                0 <= j < pre.drop_first().len() implies (#[trigger] post.drop_first()[j]).0@
                == pre.drop_first()[j].0@ by {
                assert(pre.drop_first()[j] == pre[j + 1]);
                assert(post.drop_first()[j] == post[j + 1]);
            }
            assert forall|j: int|
                0 <= j < pre.drop_first().len() implies (#[trigger] pre.drop_first()[j]).0@
                == changed || pre.drop_first()[j] == post.drop_first()[j] by {
                assert(pre.drop_first()[j] == pre[j + 1]);
                assert(post.drop_first()[j] == post[j + 1]);
            }
            lemma_find_key_update(pre.drop_first(), post.drop_first(), changed, other);
        }
    }
}

/// Appending an entry under a fresh key leaves every other key's lookup
/// alone.
proof fn lemma_find_key_push(
    pre: Seq<(String, Vec<u8>)>,
    entry: (String, Vec<u8>),
    other: Seq<char>,
)
    requires
        entry.0@ != other,
    ensures
        ({
            let i0 = find_key(pre, other);
            let i1 = find_key(pre.push(entry), other);
            &&& i0 == i1
            &&& i0 >= 0 ==> pre.push(entry)[i1].1@ == pre[i0].1@
        }),
    decreases pre.len(),
{
    lemma_find_key(pre, other);
    lemma_find_key(pre.push(entry), other);
    if pre.len() == 0 {
        assert(pre.push(entry).drop_first() =~= Seq::<(String, Vec<u8>)>::empty());
    } else {
        assert(pre.push(entry).drop_first() =~= pre.drop_first().push(entry));
        lemma_find_key_push(pre.drop_first(), entry, other);
    }
}

} // verus!
