//! Sessions: the bag of keys and identity a caller holds. Linters consult
//! the write keys to sign, transformers consult the read keys to decrypt,
//! and validators compare identities against implicit authority.
use vstd::prelude::*;
use crate::crypto::AteHash;
use crate::crypto::EncryptKey;
use crate::crypto::PrivateSignKey;

verus! {

/// One typed property of a session.
#[derive(Clone, Debug)]
pub enum SessionProperty {
    ReadKey(EncryptKey),
    WriteKey(PrivateSignKey),
    Identity(Vec<u8>),
}

/// The view of one session property.
#[verifier::ext_equal]
pub enum SessionPropertyV {
    ReadKey(EncryptKey),
    WriteKey(PrivateSignKey),
    Identity(Seq<u8>),
}

impl View for SessionProperty {
    type V = SessionPropertyV;

    open spec fn view(&self) -> SessionPropertyV {
        match *self {
            SessionProperty::ReadKey(k) => SessionPropertyV::ReadKey(k),
            SessionProperty::WriteKey(k) => SessionPropertyV::WriteKey(k),
            SessionProperty::Identity(ref i) => SessionPropertyV::Identity(i@),
        }
    }
}

/// True when the session holds a read key whose digest is `h`.
pub open spec fn spec_has_read_key(s: Seq<SessionPropertyV>, h: AteHash) -> bool {
    exists|i: int|
        0 <= i < s.len() && match #[trigger] s[i] {
            SessionPropertyV::ReadKey(k) => k.spec_hash() == h,
            _ => false,
        }
}

/// True when the session holds a write key whose public digest is `h`.
pub open spec fn spec_has_write_key(s: Seq<SessionPropertyV>, h: AteHash) -> bool {
    exists|i: int|
        0 <= i < s.len() && match #[trigger] s[i] {
            SessionPropertyV::WriteKey(k) => k.pk.spec_hash() == h,
            _ => false,
        }
}

/// The first read key whose digest is `h`, scanning from position `i`.
pub open spec fn read_key_lookup_from(s: Seq<SessionPropertyV>, h: AteHash, i: int) -> Option<
    EncryptKey,
>
    decreases s.len() - i when 0 <= i <= s.len()
{
    if i >= s.len() {
        None
    } else {
        match s[i] {
            SessionPropertyV::ReadKey(k) => if k.spec_hash() == h {
                Some(k)
            } else {
                read_key_lookup_from(s, h, i + 1)
            },
            _ => read_key_lookup_from(s, h, i + 1),
        }
    }
}

/// The first write key whose public digest is `h`, scanning from `i`.
pub open spec fn write_key_lookup_from(s: Seq<SessionPropertyV>, h: AteHash, i: int) -> Option<
    PrivateSignKey,
>
    decreases s.len() - i when 0 <= i <= s.len()
{
    if i >= s.len() {
        None
    } else {
        match s[i] {
            SessionPropertyV::WriteKey(k) => if k.pk.spec_hash() == h {
                Some(k)
            } else {
                write_key_lookup_from(s, h, i + 1)
            },
            _ => write_key_lookup_from(s, h, i + 1),
        }
    }
}

/// The first read key among the properties from position `i` on.
pub open spec fn first_read_key_from(s: Seq<SessionPropertyV>, i: int) -> Option<EncryptKey>
    decreases s.len() - i when 0 <= i <= s.len()
{
    if i >= s.len() {
        None
    } else {
        match s[i] {
            SessionPropertyV::ReadKey(k) => Some(k),
            _ => first_read_key_from(s, i + 1),
        }
    }
}

/// The first identity among the properties from position `i` on.
pub open spec fn first_identity_from(s: Seq<SessionPropertyV>, i: int) -> Option<Seq<u8>>
    decreases s.len() - i when 0 <= i <= s.len()
{
    if i >= s.len() {
        None
    } else {
        match s[i] {
            SessionPropertyV::Identity(id) => Some(id),
            _ => first_identity_from(s, i + 1),
        }
    }
}

/// A caller-held bag of typed properties.
#[derive(Clone, Debug)]
pub struct Session {
    pub properties: Vec<SessionProperty>,
}

/// The session type the service layers speak of.
pub type AteSession = Session;

impl View for Session {
    type V = Seq<SessionPropertyV>;

    open spec fn view(&self) -> Seq<SessionPropertyV> {
        self.properties@.map_values(|p: SessionProperty| p@)
    }
}

impl Default for Session {
    /// A session holding nothing.
    fn default() -> (r: Session)
        ensures
            r@ == Seq::<SessionPropertyV>::empty(),
    {
        let r = Session { properties: Vec::new() };
        proof {
            assert(r@ =~= Seq::<SessionPropertyV>::empty());
        }
        r
    }
}

impl Session {
    pub fn add_read_key(&mut self, k: &EncryptKey)
        ensures
            final(self)@ == old(self)@.push(SessionPropertyV::ReadKey(*k)),
    {
        self.properties.push(SessionProperty::ReadKey(*k));
        proof {
            assert(final(self)@ =~= old(self)@.push(SessionPropertyV::ReadKey(*k)));
        }
    }

    pub fn add_write_key(&mut self, k: &PrivateSignKey)
        ensures
            final(self)@ == old(self)@.push(SessionPropertyV::WriteKey(*k)),
    {
        self.properties.push(SessionProperty::WriteKey(*k));
        proof {
            assert(final(self)@ =~= old(self)@.push(SessionPropertyV::WriteKey(*k)));
        }
    }

    pub fn add_identity(&mut self, identity: Vec<u8>)
        ensures
            final(self)@ == old(self)@.push(SessionPropertyV::Identity(identity@)),
    {
        let ghost idv = identity@;
        self.properties.push(SessionProperty::Identity(identity));
        proof {
            assert(final(self)@ =~= old(self)@.push(SessionPropertyV::Identity(idv)));
        }
    }

    /// The first read key whose digest is `h`, if the session holds one.
    pub fn read_key_for(&self, h: &AteHash) -> (r: Option<&EncryptKey>)
        ensures
            match r {
                Some(k) => read_key_lookup_from(self@, *h, 0) == Some(*k) && k.spec_hash() == *h
                    && spec_has_read_key(self@, *h),
                None => read_key_lookup_from(self@, *h, 0).is_none() && !spec_has_read_key(
                    self@,
                    *h,
                ),
            },
    {
        let n = self.properties.len();
        let mut i: usize = 0;
        while i < n
            invariant
                i <= n,
                n == self.properties@.len(),
                read_key_lookup_from(self@, *h, 0) == read_key_lookup_from(self@, *h, i as int),
                forall|j: int|
                    0 <= j < i ==> match #[trigger] self@[j] {
                        SessionPropertyV::ReadKey(k) => k.spec_hash() != *h,
                        _ => true,
                    },
            decreases n - i,
        {
            match &self.properties[i] {
                SessionProperty::ReadKey(k) => {
                    let kh = k.hash();
                    if kh.hi == h.hi && kh.lo == h.lo {
                        proof {
                            assert(self@[i as int] matches SessionPropertyV::ReadKey(kv)
                                && kv.spec_hash() == *h);
                        }
                        return Some(k);
                    }
                },
                _ => {},
            }
            i = i + 1;
        }
        None
    }

    /// The first read key the session holds, if any.
    pub fn first_read_key(&self) -> (r: Option<&EncryptKey>)
        ensures
            match r {
                Some(k) => first_read_key_from(self@, 0) == Some(*k),
                None => first_read_key_from(self@, 0).is_none(),
            },
    {
        let n = self.properties.len();
        let mut i: usize = 0;
        while i < n
            invariant
                i <= n,
                n == self.properties@.len(),
                first_read_key_from(self@, 0) == first_read_key_from(self@, i as int),
            decreases n - i,
        {
            match &self.properties[i] {
                SessionProperty::ReadKey(k) => {
                    proof {
                        assert(self@[i as int] == SessionPropertyV::ReadKey(*k));
                    }
                    return Some(k);
                },
                _ => {},
            }
            i = i + 1;
        }
        None
    }

    /// The first write key whose public digest is `h`, if the session
    /// holds one.
    pub fn write_key_for(&self, h: &AteHash) -> (r: Option<&PrivateSignKey>)
        ensures
            match r {
                Some(k) => write_key_lookup_from(self@, *h, 0) == Some(*k) && k.pk.spec_hash()
                    == *h && spec_has_write_key(self@, *h),
                None => write_key_lookup_from(self@, *h, 0).is_none() && !spec_has_write_key(
                    self@,
                    *h,
                ),
            },
    {
        let n = self.properties.len();
        let mut i: usize = 0;
        while i < n
            invariant
                i <= n,
                n == self.properties@.len(),
                write_key_lookup_from(self@, *h, 0) == write_key_lookup_from(self@, *h, i as int),
                forall|j: int|
                    0 <= j < i ==> match #[trigger] self@[j] {
                        SessionPropertyV::WriteKey(k) => k.pk.spec_hash() != *h,
                        _ => true,
                    },
            decreases n - i,
        {
            match &self.properties[i] {
                SessionProperty::WriteKey(k) => {
                    let kh = k.hash();
                    if kh.hi == h.hi && kh.lo == h.lo {
                        proof {
                            assert(self@[i as int] matches SessionPropertyV::WriteKey(kv)
                                && kv.pk.spec_hash() == *h);
                        }
                        return Some(k);
                    }
                },
                _ => {},
            }
            i = i + 1;
        }
        None
    }

    /// An equal copy of the session.
    pub fn duplicate(&self) -> (r: Session)
        ensures
            r@ == self@,
    {
        let mut props: Vec<SessionProperty> = Vec::new();
        let mut i: usize = 0;
        while i < self.properties.len()
            invariant
                i <= self.properties@.len(),
                props@.len() == i,
                forall|j: int| 0 <= j < i ==> (#[trigger] props@[j])@ == self.properties@[j]@,
            decreases self.properties@.len() - i,
        {
            let p = match &self.properties[i] {
                SessionProperty::ReadKey(k) => SessionProperty::ReadKey(*k),
                SessionProperty::WriteKey(k) => SessionProperty::WriteKey(*k),
                SessionProperty::Identity(id) => {
                    let c = id.clone();
                    proof {
                        assert(c@ =~= id@);
                    }
                    SessionProperty::Identity(c)
                },
            };
            props.push(p);
            i = i + 1;
        }
        let r = Session { properties: props };
        proof {
            assert(r@ =~= self@);
        }
        r
    }

    /// The first identity the session carries, if any.
    pub fn identity(&self) -> (r: Option<&Vec<u8>>)
        ensures
            match r {
                Some(id) => first_identity_from(self@, 0) == Some(id@),
                None => first_identity_from(self@, 0).is_none(),
            },
    {
        let n = self.properties.len();
        let mut i: usize = 0;
        while i < n
            invariant
                i <= n,
                n == self.properties@.len(),
                first_identity_from(self@, 0) == first_identity_from(self@, i as int),
            decreases n - i,
        {
            match &self.properties[i] {
                SessionProperty::Identity(id) => {
                    return Some(id);
                },
                _ => {},
            }
            i = i + 1;
        }
        None
    }
}

} // verus!
