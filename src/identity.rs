use vstd::prelude::*;

verus! {

/// An identity handle (an account or contract address), held as its text form.
pub struct Identity {
    key: String,
}

impl View for Identity {
    type V = Seq<char>;

    closed spec fn view(&self) -> Seq<char> {
        self.key@
    }
}

impl Identity {
    pub fn new(key: String) -> (r: Identity)
        ensures
            r@ == key@,
    {
        Identity { key }
    }

    pub fn key(&self) -> (r: &String)
        ensures
            r@ == self@,
    {
        &self.key
    }

    /// Whether the two handles name the same identity.
    pub fn same(&self, other: &Identity) -> (r: bool)
        ensures
            r == (self@ == other@),
    {
        self.key == other.key
    }

    pub fn copy(&self) -> (r: Identity)
        ensures
            r@ == self@,
    {
        Identity { key: self.key.clone() }
    }
}

impl PartialEq for Identity {
    fn eq(&self, other: &Identity) -> (r: bool) {
        self.same(other)
    }
}

impl vstd::std_specs::cmp::PartialEqSpecImpl for Identity {
    open spec fn obeys_eq_spec() -> bool {
        true
    }

    open spec fn eq_spec(&self, other: &Identity) -> bool {
        self@ == other@
    }
}

impl Eq for Identity {
}

/// The text forms of a sequence of handles, in order.
pub open spec fn keys_of(ids: Seq<Identity>) -> Seq<Seq<char>> {
    ids.map_values(|i: Identity| i@)
}

/// Whether `who` occurs in `ids`.
pub fn contains_identity(ids: &Vec<Identity>, who: &Identity) -> (r: bool)
    ensures
        r == keys_of(ids@).contains(who@),
{
    let ghost keys = keys_of(ids@);
    let mut k: usize = 0;
    while k < ids.len()
        invariant
            0 <= k <= ids.len(),
            keys == keys_of(ids@),
            forall|j: int| 0 <= j < k ==> keys[j] != who@,
        decreases ids.len() - k,
    {
        if ids[k].same(who) {
            assert(keys[k as int] == who@);
            return true;
        }
        k = k + 1;
    }
    proof {
        if keys.contains(who@) {
            let j = choose|j: int| 0 <= j < keys.len() && keys[j] == who@;
            assert(keys[j] != who@);
        }
    }
    false
}

/// Copies every handle of `ids`, keeping their order.
pub fn copy_identities(ids: &Vec<Identity>) -> (r: Vec<Identity>)
    ensures
        keys_of(r@) == keys_of(ids@),
{
    let mut out: Vec<Identity> = Vec::new();
    let mut k: usize = 0;
    while k < ids.len()
        invariant
            0 <= k <= ids.len(),
            out.len() == k,
            forall|j: int| 0 <= j < k ==> (#[trigger] out@[j])@ == ids@[j]@,
        decreases ids.len() - k,
    {
        out.push(ids[k].copy());
        k = k + 1;
    }
    assert(keys_of(out@) =~= keys_of(ids@));
    out
}

/// The identities whose control a caller has proved for the current operation.
pub struct AuthContext {
    signers: Vec<Identity>,
}

impl View for AuthContext {
    type V = Seq<Seq<char>>;

    closed spec fn view(&self) -> Seq<Seq<char>> {
        keys_of(self.signers@)
    }
}

impl AuthContext {
    /// A context in which control of each of `signers` has been proved.
    pub fn new(signers: Vec<Identity>) -> (r: AuthContext)
        ensures
            r@ == keys_of(signers@),
    {
        AuthContext { signers }
    }

    /// A context in which nothing has been proved.
    pub fn anonymous() -> (r: AuthContext)
        ensures
            r@ == Seq::<Seq<char>>::empty(),
    {
        AuthContext { signers: Vec::new() }
    }

    /// Whether control of `who` has been proved.
    pub fn authorizes(&self, who: &Identity) -> (r: bool)
        ensures
            r == self@.contains(who@),
    {
        contains_identity(&self.signers, who)
    }
}

} // verus!
