//! Typed header entries carried by every event: primary keys, tombstones,
//! authorization, tree links, key distribution, signatures, timestamps and
//! authorship. Contracts speak of the entries through their mathematical
//! views, in which every vector is a sequence.
use vstd::prelude::*;
use crate::crypto::AteHash;
use crate::crypto::EncryptKey;
use crate::crypto::EncryptedPrivateKey;
use crate::crypto::EncryptedPrivateKeyV;
use crate::crypto::InitializationVector;
use crate::crypto::PublicSignKey;
use crate::header::PrimaryKey;

verus! {

/// Marker for the extra, caller-defined metadata a header can carry beside
/// the core entries.
pub trait OtherMetadata where Self: Sized + Clone {

}

/// Read and write restrictions on a row: digests of the keys that may read
/// or write it, and an identity with implicit authority over it.
#[derive(Clone, Debug)]
pub struct MetaAuthorization {
    pub allow_read: Vec<AteHash>,
    pub allow_write: Vec<AteHash>,
    pub implicit_authority: Vec<u8>,
}

/// The view of an authorization entry.
#[verifier::ext_equal]
pub struct MetaAuthorizationV {
    pub allow_read: Seq<AteHash>,
    pub allow_write: Seq<AteHash>,
    pub implicit_authority: Seq<u8>,
}

impl View for MetaAuthorization {
    type V = MetaAuthorizationV;

    open spec fn view(&self) -> MetaAuthorizationV {
        MetaAuthorizationV {
            allow_read: self.allow_read@,
            allow_write: self.allow_write@,
            implicit_authority: self.implicit_authority@,
        }
    }
}

impl MetaAuthorizationV {
    /// No restriction at all: anyone may read, nothing demands a signature.
    pub open spec fn is_unrestricted(&self) -> bool {
        self.allow_read.len() == 0 && self.allow_write.len() == 0 && self.implicit_authority.len()
            == 0
    }
}

impl MetaAuthorization {
    pub fn new_unrestricted() -> (r: MetaAuthorization)
        ensures
            r@.is_unrestricted(),
    {
        MetaAuthorization {
            allow_read: Vec::new(),
            allow_write: Vec::new(),
            implicit_authority: Vec::new(),
        }
    }

    pub fn is_unrestricted(&self) -> (r: bool)
        ensures
            r == self@.is_unrestricted(),
    {
        self.allow_read.len() == 0 && self.allow_write.len() == 0
            && self.implicit_authority.len() == 0
    }
}

/// The secondary-index key a tree link files a row under: the parent row
/// and the collection within it.
#[derive(Clone, Copy, Debug, PartialEq, Eq, Structural, Hash)]
pub struct MetaCollection {
    pub parent_id: PrimaryKey,
    pub collection_id: u64,
}

/// A tree link: the collection this row belongs to and whether it inherits
/// the parent's read and write authority.
#[derive(Clone, Copy, Debug, PartialEq, Eq, Structural, Hash)]
pub struct MetaTree {
    pub vec: MetaCollection,
    pub inherit_read: bool,
    pub inherit_write: bool,
}

/// A signature envelope: the digests of the event headers it covers, the
/// signature over them, and the digest of the public key that made it.
#[derive(Clone, Debug)]
pub struct MetaSignature {
    pub header_hashes: Vec<AteHash>,
    pub signature: AteHash,
    pub public_key_hash: AteHash,
}

/// The view of a signature envelope.
#[verifier::ext_equal]
pub struct MetaSignatureV {
    pub header_hashes: Seq<AteHash>,
    pub signature: AteHash,
    pub public_key_hash: AteHash,
}

impl View for MetaSignature {
    type V = MetaSignatureV;

    open spec fn view(&self) -> MetaSignatureV {
        MetaSignatureV {
            header_hashes: self.header_hashes@,
            signature: self.signature,
            public_key_hash: self.public_key_hash,
        }
    }
}

/// The moment an event was linted, in milliseconds since the Unix epoch.
#[derive(Clone, Copy, Debug, PartialEq, Eq, Structural, Hash)]
pub struct MetaTimestamp {
    pub time_since_epoch_ms: u64,
}

/// One core header entry.
#[derive(Clone, Debug)]
pub enum CoreMetadata {
    Vacant,
    Data(PrimaryKey),
    Tombstone(PrimaryKey),
    Authorization(MetaAuthorization),
    InitializationVector(InitializationVector),
    PublicKey(PublicSignKey),
    EncryptedPrivateKey(EncryptedPrivateKey),
    EncryptedEncryptionKey(EncryptKey),
    Tree(MetaTree),
    Signature(MetaSignature),
    Timestamp(MetaTimestamp),
    Author(Vec<u8>),
}

/// The view of one core header entry.
#[verifier::ext_equal]
pub enum CoreMetadataV {
    Vacant,
    Data(PrimaryKey),
    Tombstone(PrimaryKey),
    Authorization(MetaAuthorizationV),
    InitializationVector(InitializationVector),
    PublicKey(PublicSignKey),
    EncryptedPrivateKey(EncryptedPrivateKeyV),
    EncryptedEncryptionKey(EncryptKey),
    Tree(MetaTree),
    Signature(MetaSignatureV),
    Timestamp(MetaTimestamp),
    Author(Seq<u8>),
}

impl View for CoreMetadata {
    type V = CoreMetadataV;

    open spec fn view(&self) -> CoreMetadataV {
        match *self {
            CoreMetadata::Vacant => CoreMetadataV::Vacant,
            CoreMetadata::Data(k) => CoreMetadataV::Data(k),
            CoreMetadata::Tombstone(k) => CoreMetadataV::Tombstone(k),
            CoreMetadata::Authorization(ref a) => CoreMetadataV::Authorization(a@),
            CoreMetadata::InitializationVector(iv) => CoreMetadataV::InitializationVector(iv),
            CoreMetadata::PublicKey(pk) => CoreMetadataV::PublicKey(pk),
            CoreMetadata::EncryptedPrivateKey(ref epk) => CoreMetadataV::EncryptedPrivateKey(epk@),
            CoreMetadata::EncryptedEncryptionKey(k) => CoreMetadataV::EncryptedEncryptionKey(k),
            CoreMetadata::Tree(t) => CoreMetadataV::Tree(t),
            CoreMetadata::Signature(ref s) => CoreMetadataV::Signature(s@),
            CoreMetadata::Timestamp(t) => CoreMetadataV::Timestamp(t),
            CoreMetadata::Author(ref a) => CoreMetadataV::Author(a@),
        }
    }
}

impl Default for CoreMetadata {
    /// The vacant entry.
    fn default() -> (r: Self)
        ensures
            r is Vacant,
    {
        CoreMetadata::Vacant
    }
}

/// The view of a vector of entries: the sequence of their views.
pub open spec fn core_view(core: Seq<CoreMetadata>) -> Seq<CoreMetadataV> {
    core.map_values(|e: CoreMetadata| e@)
}

/// No additional metadata beside the core entries.
#[derive(Clone, Copy, Debug, PartialEq, Eq, Structural, Hash)]
pub struct NoAdditionalMetadata {}

impl OtherMetadata for NoAdditionalMetadata {

}

/// An event header: the ordered core entries plus caller-defined extras.
#[derive(Clone, Debug)]
pub struct MetadataExt<M> {
    pub core: Vec<CoreMetadata>,
    pub other: M,
}

/// The header type the engine itself works with.
pub type Metadata = MetadataExt<NoAdditionalMetadata>;

impl View for Metadata {
    type V = Seq<CoreMetadataV>;

    open spec fn view(&self) -> Seq<CoreMetadataV> {
        core_view(self.core@)
    }
}

/// An equal copy of an authorization entry.
pub fn copy_auth(a: &MetaAuthorization) -> (r: MetaAuthorization)
    ensures
        r@ == a@,
{
    MetaAuthorization {
        allow_read: a.allow_read.clone(),
        allow_write: a.allow_write.clone(),
        implicit_authority: a.implicit_authority.clone(),
    }
}

/// A copy of one header entry, equal in view.
pub fn copy_entry(e: &CoreMetadata) -> (r: CoreMetadata)
    ensures
        r@ == e@,
{
    match e {
        CoreMetadata::Vacant => CoreMetadata::Vacant,
        CoreMetadata::Data(k) => CoreMetadata::Data(*k),
        CoreMetadata::Tombstone(k) => CoreMetadata::Tombstone(*k),
        CoreMetadata::Authorization(a) => CoreMetadata::Authorization(copy_auth(a)),
        CoreMetadata::InitializationVector(iv) => CoreMetadata::InitializationVector(*iv),
        CoreMetadata::PublicKey(pk) => CoreMetadata::PublicKey(*pk),
        CoreMetadata::EncryptedPrivateKey(epk) => CoreMetadata::EncryptedPrivateKey(
            EncryptedPrivateKey {
                pk: epk.pk,
                ek_hash: epk.ek_hash,
                sk_iv: epk.sk_iv,
                sk_encrypted: epk.sk_encrypted.clone(),
            },
        ),
        CoreMetadata::EncryptedEncryptionKey(k) => CoreMetadata::EncryptedEncryptionKey(*k),
        CoreMetadata::Tree(t) => CoreMetadata::Tree(*t),
        CoreMetadata::Signature(sig) => CoreMetadata::Signature(
            MetaSignature {
                header_hashes: sig.header_hashes.clone(),
                signature: sig.signature,
                public_key_hash: sig.public_key_hash,
            },
        ),
        CoreMetadata::Timestamp(t) => CoreMetadata::Timestamp(*t),
        CoreMetadata::Author(a) => CoreMetadata::Author(a.clone()),
    }
}

/// A copy of a vector of header entries, equal in view.
pub fn copy_core(core: &Vec<CoreMetadata>) -> (r: Vec<CoreMetadata>)
    ensures
        core_view(r@) == core_view(core@),
{
    let mut r: Vec<CoreMetadata> = Vec::new();
    let mut i: usize = 0;
    while i < core.len()
        invariant
            i <= core@.len(),
            r@.len() == i,
            forall|j: int| 0 <= j < i ==> (#[trigger] r@[j])@ == core@[j]@,
        decreases core@.len() - i,
    {
        r.push(copy_entry(&core[i]));
        i = i + 1;
    }
    proof {
        assert(core_view(r@) =~= core_view(core@));
    }
    r
}

/// A copy of a header, equal in view.
pub fn copy_metadata(m: &Metadata) -> (r: Metadata)
    ensures
        r@ == m@,
        r.other == m.other,
{
    Metadata { core: copy_core(&m.core), other: NoAdditionalMetadata {  } }
}

/// The first `Data` key among the entries from position `i` on.
pub open spec fn first_data_key_from(s: Seq<CoreMetadataV>, i: int) -> Option<PrimaryKey>
    decreases s.len() - i when 0 <= i <= s.len()
{
    if i >= s.len() {
        None
    } else {
        match s[i] {
            CoreMetadataV::Data(k) => Some(k),
            _ => first_data_key_from(s, i + 1),
        }
    }
}

/// The first `Tombstone` key among the entries from position `i` on.
pub open spec fn first_tombstone_from(s: Seq<CoreMetadataV>, i: int) -> Option<PrimaryKey>
    decreases s.len() - i when 0 <= i <= s.len()
{
    if i >= s.len() {
        None
    } else {
        match s[i] {
            CoreMetadataV::Tombstone(k) => Some(k),
            _ => first_tombstone_from(s, i + 1),
        }
    }
}

/// The first `Timestamp` among the entries from position `i` on.
pub open spec fn first_timestamp_from(s: Seq<CoreMetadataV>, i: int) -> Option<MetaTimestamp>
    decreases s.len() - i when 0 <= i <= s.len()
{
    if i >= s.len() {
        None
    } else {
        match s[i] {
            CoreMetadataV::Timestamp(t) => Some(t),
            _ => first_timestamp_from(s, i + 1),
        }
    }
}

/// The first `Tree` link among the entries from position `i` on.
pub open spec fn first_tree_from(s: Seq<CoreMetadataV>, i: int) -> Option<MetaTree>
    decreases s.len() - i when 0 <= i <= s.len()
{
    if i >= s.len() {
        None
    } else {
        match s[i] {
            CoreMetadataV::Tree(t) => Some(t),
            _ => first_tree_from(s, i + 1),
        }
    }
}

/// The first `Authorization` among the entries from position `i` on.
pub open spec fn first_auth_from(s: Seq<CoreMetadataV>, i: int) -> Option<MetaAuthorizationV>
    decreases s.len() - i when 0 <= i <= s.len()
{
    if i >= s.len() {
        None
    } else {
        match s[i] {
            CoreMetadataV::Authorization(a) => Some(a),
            _ => first_auth_from(s, i + 1),
        }
    }
}

/// True when some entry is a restrictive authorization: such a header must
/// be covered by a signature.
pub open spec fn spec_needs_signature(s: Seq<CoreMetadataV>) -> bool {
    exists|i: int|
        0 <= i < s.len() && match #[trigger] s[i] {
            CoreMetadataV::Authorization(a) => !a.is_unrestricted(),
            _ => false,
        }
}

impl Metadata {
    /// The first `Data` key, if any.
    pub open spec fn spec_data_key(&self) -> Option<PrimaryKey> {
        first_data_key_from(self@, 0)
    }

    /// The first `Tombstone` key, if any.
    pub open spec fn spec_tombstone(&self) -> Option<PrimaryKey> {
        first_tombstone_from(self@, 0)
    }

    /// The first `Timestamp`, if any.
    pub open spec fn spec_timestamp(&self) -> Option<MetaTimestamp> {
        first_timestamp_from(self@, 0)
    }

    /// The first `Tree` link, if any.
    pub open spec fn spec_tree(&self) -> Option<MetaTree> {
        first_tree_from(self@, 0)
    }

    /// A fresh header that marks exactly one row mutation.
    pub fn for_data(key: PrimaryKey) -> (r: Metadata)
        ensures
            r@ == seq![CoreMetadataV::Data(key)],
            r.spec_data_key() == Some(key),
            r.spec_tombstone().is_none(),
    {
        let mut core: Vec<CoreMetadata> = Vec::new();
        core.push(CoreMetadata::Data(key));
        let r = Metadata { core, other: NoAdditionalMetadata {  } };
        proof {
            assert(r@ =~= seq![CoreMetadataV::Data(key)]);
            assert(first_tombstone_from(r@, 1).is_none());
        }
        r
    }

    /// An empty header.
    pub fn new_empty() -> (r: Metadata)
        ensures
            r@ == Seq::<CoreMetadataV>::empty(),
            r.spec_data_key().is_none(),
            r.spec_tombstone().is_none(),
    {
        let r = Metadata { core: Vec::new(), other: NoAdditionalMetadata {  } };
        proof {
            assert(r@ =~= Seq::<CoreMetadataV>::empty());
        }
        r
    }

    /// Appends one entry.
    pub fn push_entry(&mut self, e: CoreMetadata)
        ensures
            final(self)@ == old(self)@.push(e@),
    {
        self.core.push(e);
        proof {
            assert(final(self)@ =~= old(self)@.push(e@));
        }
    }

    /// Appends a tombstone for the key. A header must not carry both `Data`
    /// and `Tombstone` for the same key.
    pub fn add_tombstone(&mut self, key: PrimaryKey)
        requires
            old(self).spec_data_key() != Some(key),
        ensures
            final(self)@ == old(self)@.push(CoreMetadataV::Tombstone(key)),
    {
        self.core.push(CoreMetadata::Tombstone(key));
        proof {
            assert(final(self)@ =~= old(self)@.push(CoreMetadataV::Tombstone(key)));
        }
    }

    /// The first `Data` key: the row this event mutates.
    pub fn get_data_key(&self) -> (r: Option<PrimaryKey>)
        ensures
            r == self.spec_data_key(),
    {
        let n = self.core.len();
        let mut i: usize = 0;
        while i < n
            invariant
                i <= n,
                n == self.core@.len(),
                first_data_key_from(self@, 0) == first_data_key_from(self@, i as int),
            decreases n - i,
        {
            match &self.core[i] {
                CoreMetadata::Data(k) => {
                    return Some(*k);
                },
                _ => {},
            }
            i = i + 1;
        }
        None
    }

    /// The first `Tombstone` key: the row this event retires.
    pub fn get_tombstone(&self) -> (r: Option<PrimaryKey>)
        ensures
            r == self.spec_tombstone(),
    {
        let n = self.core.len();
        let mut i: usize = 0;
        while i < n
            invariant
                i <= n,
                n == self.core@.len(),
                first_tombstone_from(self@, 0) == first_tombstone_from(self@, i as int),
            decreases n - i,
        {
            match &self.core[i] {
                CoreMetadata::Tombstone(k) => {
                    return Some(*k);
                },
                _ => {},
            }
            i = i + 1;
        }
        None
    }

    /// The first `Timestamp` entry.
    pub fn get_timestamp(&self) -> (r: Option<MetaTimestamp>)
        ensures
            r == self.spec_timestamp(),
    {
        let n = self.core.len();
        let mut i: usize = 0;
        while i < n
            invariant
                i <= n,
                n == self.core@.len(),
                first_timestamp_from(self@, 0) == first_timestamp_from(self@, i as int),
            decreases n - i,
        {
            match &self.core[i] {
                CoreMetadata::Timestamp(t) => {
                    return Some(*t);
                },
                _ => {},
            }
            i = i + 1;
        }
        None
    }

    /// The first `Tree` link.
    pub fn get_tree(&self) -> (r: Option<MetaTree>)
        ensures
            r == self.spec_tree(),
    {
        let n = self.core.len();
        let mut i: usize = 0;
        while i < n
            invariant
                i <= n,
                n == self.core@.len(),
                first_tree_from(self@, 0) == first_tree_from(self@, i as int),
            decreases n - i,
        {
            match &self.core[i] {
                CoreMetadata::Tree(t) => {
                    return Some(*t);
                },
                _ => {},
            }
            i = i + 1;
        }
        None
    }

    /// The first `Authorization` entry.
    pub fn get_authorization(&self) -> (r: Option<&MetaAuthorization>)
        ensures
            match r {
                Some(a) => first_auth_from(self@, 0) == Some(a@),
                None => first_auth_from(self@, 0).is_none(),
            },
    {
        let n = self.core.len();
        let mut i: usize = 0;
        while i < n
            invariant
                i <= n,
                n == self.core@.len(),
                first_auth_from(self@, 0) == first_auth_from(self@, i as int),
            decreases n - i,
        {
            match &self.core[i] {
                CoreMetadata::Authorization(a) => {
                    return Some(a);
                },
                _ => {},
            }
            i = i + 1;
        }
        None
    }

    /// True iff some authorization restriction is present, in which case the
    /// header must be covered by a signature.
    pub fn needs_signature(&self) -> (r: bool)
        ensures
            r == spec_needs_signature(self@),
    {
        let n = self.core.len();
        let mut i: usize = 0;
        while i < n
            invariant
                i <= n,
                n == self.core@.len(),
                forall|j: int|
                    0 <= j < i ==> match #[trigger] self@[j] {
                        CoreMetadataV::Authorization(a) => a.is_unrestricted(),
                        _ => true,
                    },
            decreases n - i,
        {
            match &self.core[i] {
                CoreMetadata::Authorization(a) => {
                    if !a.is_unrestricted() {
                        proof {
                            assert(self@[i as int] matches CoreMetadataV::Authorization(av)
                                && !av.is_unrestricted());
                        }
                        return true;
                    }
                },
                _ => {},
            }
            i = i + 1;
        }
        false
    }
}


/// When no entry from `i` on is a tombstone, the scan finds none.
pub proof fn lemma_no_tombstone(s: Seq<CoreMetadataV>, i: int)
    requires
        0 <= i <= s.len(),
        forall|j: int| i <= j < s.len() ==> !((#[trigger] s[j]) is Tombstone),
    ensures
        first_tombstone_from(s, i).is_none(),
    decreases s.len() - i,
{
    if i < s.len() {
        lemma_no_tombstone(s, i + 1);
    }
}

/// When no entry from `i` on is a data key, the scan finds none.
pub proof fn lemma_no_data_key(s: Seq<CoreMetadataV>, i: int)
    requires
        0 <= i <= s.len(),
        forall|j: int| i <= j < s.len() ==> !((#[trigger] s[j]) is Data),
    ensures
        first_data_key_from(s, i).is_none(),
    decreases s.len() - i,
{
    if i < s.len() {
        lemma_no_data_key(s, i + 1);
    }
}

/// The first tombstone is the one at `w` when nothing before it is one.
pub proof fn lemma_first_tombstone_at(s: Seq<CoreMetadataV>, i: int, w: int, k: PrimaryKey)
    requires
        0 <= i <= w < s.len(),
        s[w] == CoreMetadataV::Tombstone(k),
        forall|j: int| i <= j < w ==> !((#[trigger] s[j]) is Tombstone),
    ensures
        first_tombstone_from(s, i) == Some(k),
    decreases w - i,
{
    if i < w {
        lemma_first_tombstone_at(s, i + 1, w, k);
    }
}

/// The first tree link is the one at `w` when nothing before it is one.
pub proof fn lemma_first_tree_at(s: Seq<CoreMetadataV>, i: int, w: int, t: MetaTree)
    requires
        0 <= i <= w < s.len(),
        s[w] == CoreMetadataV::Tree(t),
        forall|j: int| i <= j < w ==> !((#[trigger] s[j]) is Tree),
    ensures
        first_tree_from(s, i) == Some(t),
    decreases w - i,
{
    if i < w {
        lemma_first_tree_at(s, i + 1, w, t);
    }
}

/// When no entry from `i` on is a tree link, the scan finds none.
pub proof fn lemma_no_tree(s: Seq<CoreMetadataV>, i: int)
    requires
        0 <= i <= s.len(),
        forall|j: int| i <= j < s.len() ==> !((#[trigger] s[j]) is Tree),
    ensures
        first_tree_from(s, i).is_none(),
    decreases s.len() - i,
{
    if i < s.len() {
        lemma_no_tree(s, i + 1);
    }
}

/// The first timestamp is the one at `w` when nothing before it is one.
pub proof fn lemma_first_timestamp_at(s: Seq<CoreMetadataV>, i: int, w: int, t: MetaTimestamp)
    requires
        0 <= i <= w < s.len(),
        s[w] == CoreMetadataV::Timestamp(t),
        forall|j: int| i <= j < w ==> !((#[trigger] s[j]) is Timestamp),
    ensures
        first_timestamp_from(s, i) == Some(t),
    decreases w - i,
{
    if i < w {
        lemma_first_timestamp_at(s, i + 1, w, t);
    }
}

/// The first authorization is the one at `w` when nothing before it is one.
pub proof fn lemma_first_auth_at(s: Seq<CoreMetadataV>, i: int, w: int, a: MetaAuthorizationV)
    requires
        0 <= i <= w < s.len(),
        s[w] == CoreMetadataV::Authorization(a),
        forall|j: int| i <= j < w ==> !((#[trigger] s[j]) is Authorization),
    ensures
        first_auth_from(s, i) == Some(a),
    decreases w - i,
{
    if i < w {
        lemma_first_auth_at(s, i + 1, w, a);
    }
}

} // verus!
