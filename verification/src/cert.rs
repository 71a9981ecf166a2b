//! The leaf certificates of the certificate authority: which leaf answers
//! for which authority. Making a leaf (keys, signatures) is the caller's
//! part; the cache decides when one is made and which one is used.

use crate::bytes::copy_bytes;
use crate::text::{ascii_lower, chars_of, str_eq, string_of};
use vstd::prelude::*;

verus! {

/// A leaf certificate with its private key, both in DER.
#[derive(Debug)]
pub struct Leaf {
    pub cert: Vec<u8>,
    pub key: Vec<u8>,
}

/// A leaf as plain values.
pub struct LeafView {
    pub cert: Seq<u8>,
    pub key: Seq<u8>,
}

impl View for Leaf {
    type V = LeafView;

    open spec fn view(&self) -> LeafView {
        LeafView { cert: self.cert@, key: self.key@ }
    }
}

impl DeepView for Leaf {
    type V = LeafView;

    open spec fn deep_view(&self) -> LeafView {
        self@
    }
}

impl Clone for Leaf {
    fn clone(&self) -> (r: Self)
        ensures
            r@ == self@,
    {
        Leaf { cert: copy_bytes(self.cert.as_slice()), key: copy_bytes(self.key.as_slice()) }
    }
}

/// The leaves that have been made, each under the key of its authority.
#[derive(Debug)]
pub struct CertificateAuthority {
    pub leaves: Vec<(String, Leaf)>,
}

impl View for CertificateAuthority {
    type V = Seq<(Seq<char>, LeafView)>;

    open spec fn view(&self) -> Seq<(Seq<char>, LeafView)> {
        self.leaves.deep_view()
    }
}

/// The key under which the leaf of an authority is kept: the authority,
/// host and port, with the letters of the host in lower case.
pub open spec fn key_of(authority: Seq<char>) -> Seq<char> {
    Seq::new(authority.len(), |i: int| ascii_lower(authority[i]))
}

/// The first leaf at or after `from` that is kept under `key`.
pub open spec fn leaf_at(leaves: Seq<(Seq<char>, LeafView)>, key: Seq<char>, from: int) -> Option<
    int,
>
    decreases leaves.len() - from,
{
    if from < 0 || from >= leaves.len() {
        None
    } else if leaves[from].0 == key {
        Some(from)
    } else {
        leaf_at(leaves, key, from + 1)
    }
}

/// The leaf that answers for an authority.
pub open spec fn leaf_of(leaves: Seq<(Seq<char>, LeafView)>, authority: Seq<char>) -> Option<
    LeafView,
> {
    match leaf_at(leaves, key_of(authority), 0) {
        Some(i) => Some(leaves[i].1),
        None => None,
    }
}

/// The leaves after one was asked for: where the authority has none and a
/// new one could be made, the new one is kept; else nothing changes.
pub open spec fn after_request(
    leaves: Seq<(Seq<char>, LeafView)>,
    authority: Seq<char>,
    minted: Option<LeafView>,
) -> Seq<(Seq<char>, LeafView)> {
    match (leaf_at(leaves, key_of(authority), 0), minted) {
        (None, Some(leaf)) => leaves.push((key_of(authority), leaf)),
        _ => leaves,
    }
}

/// The key under which the leaf of an authority is kept.
pub fn cache_key(authority: &str) -> (r: String)
    ensures
        r@ == key_of(authority@),
{
    let a = chars_of(authority);
    let mut out: Vec<char> = Vec::new();
    let mut i: usize = 0;
    while i < a.len()
        invariant
            i <= a.len(),
            out.len() == i,
            forall|j: int| 0 <= j < i ==> out@[j] == ascii_lower(a@[j]),
        decreases a.len() - i,
    {
        let c = a[i];
        let lower = if 'A' <= c && c <= 'Z' {
            ((c as u8) + 32) as char
        } else {
            c
        };
        out.push(lower);
        i += 1;
    }
    assert(out@ =~= key_of(authority@));
    string_of(out.as_slice())
}

impl CertificateAuthority {
    /// An authority that has made no leaf yet.
    pub fn new() -> (r: Self)
        ensures
            r@.len() == 0,
    {
        CertificateAuthority { leaves: Vec::new() }
    }

    fn find(&self, key: &str) -> (r: Option<usize>)
        ensures
            match r {
                Some(i) => leaf_at(self@, key@, 0) == Some(i as int) && i < self.leaves.len()
                    && self@[i as int].1 == self.leaves[i as int].1@,
                None => leaf_at(self@, key@, 0) is None,
            },
    {
        let mut i: usize = 0;
        while i < self.leaves.len()
            invariant
                i <= self.leaves.len(),
                leaf_at(self@, key@, 0) == leaf_at(self@, key@, i as int),
            decreases self.leaves.len() - i,
        {
            assert(self@[i as int] == (self.leaves[i as int].0@, self.leaves[i as int].1@));
            if str_eq(self.leaves[i].0.as_str(), key) {
                return Some(i);
            }
            i += 1;
        }
        None
    }

    /// The leaf that answers for an authority, if one has been made.
    pub fn lookup(&self, authority: &str) -> (r: Option<Leaf>)
        ensures
            r.deep_view() == leaf_of(self@, authority@),
    {
        let key = cache_key(authority);
        match self.find(key.as_str()) {
            Some(i) => Some(self.leaves[i].1.clone()),
            None => None,
        }
    }

    /// The leaf to offer for an authority. A leaf that was made before is
    /// used again, whatever `minted` holds; else the leaf that the caller
    /// has made is kept and used. Where the caller could make none, its
    /// error is handed on and nothing is kept.
    pub fn gen_server_config(&mut self, authority: &str, minted: Result<Leaf, String>) -> (r: Result<
        Leaf,
        String,
    >)
        ensures
            final(self)@ == after_request(old(self)@, authority@, match minted {
                Ok(leaf) => Some(leaf@),
                Err(_) => None,
            }),
            match leaf_of(old(self)@, authority@) {
                Some(leaf) => r is Ok && r->Ok_0@ == leaf,
                None => match minted {
                    Ok(leaf) => r is Ok && r->Ok_0@ == leaf@,
                    Err(e) => r == Err::<Leaf, String>(e),
                },
            },
    {
        let key = cache_key(authority);
        if let Some(i) = self.find(key.as_str()) {
            return Ok(self.leaves[i].1.clone());
        }
        match minted {
            Ok(leaf) => {
                let ghost before = self@;
                let used = leaf.clone();
                self.leaves.push((key, leaf));
                assert(self@ =~= before.push((key_of(authority@), leaf@)));
                Ok(used)
            },
            Err(e) => Err(e),
        }
    }
}

/// A leaf that is added at the end takes no place from an earlier one.
pub proof fn lemma_leaf_at_push(
    leaves: Seq<(Seq<char>, LeafView)>,
    added: (Seq<char>, LeafView),
    key: Seq<char>,
    from: int,
)
    requires
        0 <= from <= leaves.len(),
        leaf_at(leaves, key, from) is Some,
    ensures
        leaf_at(leaves.push(added), key, from) == leaf_at(leaves, key, from),
    decreases leaves.len() - from,
{
    let longer = leaves.push(added);
    if from < leaves.len() {
        assert(longer[from] == leaves[from]);
        if leaves[from].0 != key {
            lemma_leaf_at_push(leaves, added, key, from + 1);
        }
    }
}

/// The leaf of an authority stays the same for as long as the engine
/// lives: once an authority has a leaf, no request, for whatever authority
/// and with whatever new leaf, changes the leaf that answers for it.
pub proof fn lemma_leaf_is_kept(
    leaves: Seq<(Seq<char>, LeafView)>,
    authority: Seq<char>,
    asked: Seq<char>,
    minted: Option<LeafView>,
)
    requires
        leaf_of(leaves, authority) is Some,
    ensures
        leaf_of(after_request(leaves, asked, minted), authority) == leaf_of(leaves, authority),
{
    let after = after_request(leaves, asked, minted);
    if after != leaves {
        lemma_leaf_at_push(leaves, (key_of(asked), minted->0), key_of(authority), 0);
        let i = leaf_at(leaves, key_of(authority), 0)->0;
        lemma_leaf_at_bound(leaves, key_of(authority), 0);
        assert(after[i] == leaves[i]);
    }
}

/// Where a leaf is found.
pub proof fn lemma_leaf_at_bound(leaves: Seq<(Seq<char>, LeafView)>, key: Seq<char>, from: int)
    requires
        0 <= from,
    ensures
        leaf_at(leaves, key, from) matches Some(i) ==> from <= i < leaves.len() && leaves[i].0 == key,
    decreases leaves.len() - from,
{
    if from < leaves.len() && leaves[from].0 != key {
        lemma_leaf_at_bound(leaves, key, from + 1);
    }
}

} // verus!
