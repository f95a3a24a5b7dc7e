use vstd::prelude::*;
use vstd::pervasive::VecAdditionalExecFns;

use crate::counter::Counter;
use crate::errors::ChannelError;
use crate::identity::Identity;
use crate::store::{contains_key, distinct_keys, lookup};
use crate::store::{lemma_lookup_at_index, lemma_lookup_none, lemma_lookup_push, lemma_lookup_update};

verus! {

/// One credited creator of a counter's descriptive record, with its share of
/// any seller fees in percent.
pub struct CreatorShare {
    pub address: Identity,
    pub verified: bool,
    pub share: u8,
}

/// The mathematical model of a `CreatorShare`.
pub ghost struct CreatorShareView {
    pub address: Seq<u8>,
    pub verified: bool,
    pub share: u8,
}

impl View for CreatorShare {
    type V = CreatorShareView;

    open spec fn view(&self) -> CreatorShareView {
        CreatorShareView { address: self.address@, verified: self.verified, share: self.share }
    }
}

impl Clone for CreatorShare {
    fn clone(&self) -> (r: Self)
        ensures
            r@ == self@,
    {
        CreatorShare { address: self.address.clone(), verified: self.verified, share: self.share }
    }
}

/// The views of a list of creator shares.
pub open spec fn shares_view(s: Seq<CreatorShare>) -> Seq<CreatorShareView> {
    s.map_values(|c: CreatorShare| c@)
}

/// The descriptive fields of a metadata record: the ones this protocol may
/// later change (`name`, `symbol`, `uri`) and the ones fixed at creation.
pub struct RecordData {
    pub name: Vec<u8>,
    pub symbol: Vec<u8>,
    pub uri: Vec<u8>,
    pub seller_fee_basis_points: u16,
    pub creators: Vec<CreatorShare>,
}

/// The mathematical model of a `RecordData`.
pub ghost struct RecordDataView {
    pub name: Seq<u8>,
    pub symbol: Seq<u8>,
    pub uri: Seq<u8>,
    pub seller_fee_basis_points: u16,
    pub creators: Seq<CreatorShareView>,
}

impl View for RecordData {
    type V = RecordDataView;

    open spec fn view(&self) -> RecordDataView {
        RecordDataView {
            name: self.name@,
            symbol: self.symbol@,
            uri: self.uri@,
            seller_fee_basis_points: self.seller_fee_basis_points,
            creators: shares_view(self.creators@),
        }
    }
}

impl Clone for RecordData {
    fn clone(&self) -> (r: Self)
        ensures
            r@ == self@,
    {
        let name = self.name.clone();
        let symbol = self.symbol.clone();
        let uri = self.uri.clone();
        assert(name@ =~= self.name@);
        assert(symbol@ =~= self.symbol@);
        assert(uri@ =~= self.uri@);
        let mut creators: Vec<CreatorShare> = Vec::new();
        let n = self.creators.len();
        let mut i: usize = 0;
        while i < n
            invariant
                n == self.creators@.len(),
                i <= n,
                creators@.len() == i,
                forall|j: int| 0 <= j < i ==> (#[trigger] creators@[j])@ == self.creators@[j]@,
            decreases n - i,
        {
            creators.push(self.creators[i].clone());
            i += 1;
        }
        proof {
            assert(shares_view(creators@) =~= shares_view(self.creators@));
        }
        RecordData {
            name,
            symbol,
            uri,
            seller_fee_basis_points: self.seller_fee_basis_points,
            creators,
        }
    }
}

/// A counter's descriptive record as the metadata registry holds it: the
/// descriptive data, the credential allowed to change it, whether it may be
/// changed at all, and whether a primary sale has happened.
pub struct MetadataRecord {
    pub data: RecordData,
    pub update_authority: Identity,
    pub is_mutable: bool,
    pub primary_sale_happened: bool,
}

/// The mathematical model of a `MetadataRecord`.
pub ghost struct MetadataRecordView {
    pub data: RecordDataView,
    pub update_authority: Seq<u8>,
    pub is_mutable: bool,
    pub primary_sale_happened: bool,
}

impl MetadataRecordView {
    pub open spec fn wf(self) -> bool {
        self.update_authority.len() == 32
    }
}

impl View for MetadataRecord {
    type V = MetadataRecordView;

    open spec fn view(&self) -> MetadataRecordView {
        MetadataRecordView {
            data: self.data@,
            update_authority: self.update_authority@,
            is_mutable: self.is_mutable,
            primary_sale_happened: self.primary_sale_happened,
        }
    }
}

impl MetadataRecord {
    pub open spec fn wf(&self) -> bool {
        self@.wf()
    }
}

/// The view of an optional replacement value for a record's data.
pub open spec fn data_patch_view(d: Option<RecordData>) -> Option<RecordDataView> {
    match d {
        Some(x) => Some(x@),
        None => None,
    }
}

/// A record with an update applied: each field of the patch that is present
/// replaces the record's field, each absent field is retained verbatim, and
/// mutability is fixed at creation.
pub open spec fn patched_record(
    rec: MetadataRecordView,
    new_update_authority: Option<Seq<u8>>,
    data: Option<RecordDataView>,
    primary_sale_happened: Option<bool>,
) -> MetadataRecordView {
    MetadataRecordView {
        data: match data {
            Some(d) => d,
            None => rec.data,
        },
        update_authority: match new_update_authority {
            Some(u) => u,
            None => rec.update_authority,
        },
        is_mutable: rec.is_mutable,
        primary_sale_happened: match primary_sale_happened {
            Some(p) => p,
            None => rec.primary_sale_happened,
        },
    }
}

/// Whether an update of the record stored under `counter_id` succeeds, and
/// with which error it fails: the record must exist, the presented authority
/// must match its registered update authority, and it must have been created
/// mutable.
pub open spec fn update_metadata_outcome(
    reg: Seq<(Seq<u8>, MetadataRecordView)>,
    counter_id: Seq<u8>,
    authority: Seq<u8>,
) -> Result<(), ChannelError> {
    match lookup(reg, counter_id) {
        None => Err(ChannelError::PreconditionFailed),
        Some(rec) => if rec.update_authority != authority {
            Err(ChannelError::AuthorityMismatch)
        } else if !rec.is_mutable {
            Err(ChannelError::Immutable)
        } else {
            Ok(())
        },
    }
}

/// The external metadata-registry service, modelled as a durable mapping
/// from a counter's identity to its one descriptive record.
pub struct MetadataRegistry {
    entries: Vec<(Identity, MetadataRecord)>,
}

impl View for MetadataRegistry {
    type V = Seq<(Seq<u8>, MetadataRecordView)>;

    closed spec fn view(&self) -> Seq<(Seq<u8>, MetadataRecordView)> {
        self.entries@.map_values(|e: (Identity, MetadataRecord)| (e.0@, e.1@))
    }
}

impl MetadataRegistry {
    /// A well-formed registry binds each 32-byte counter identity to at most
    /// one well-formed record.
    pub open spec fn wf(&self) -> bool {
        &&& distinct_keys(self@)
        &&& forall|i: int|
            0 <= i < self@.len() ==> (#[trigger] self@[i]).0.len() == 32 && self@[i].1.wf()
    }

    /// An empty registry.
    pub fn new() -> (r: Self)
        ensures
            r@ == Seq::<(Seq<u8>, MetadataRecordView)>::empty(),
            r.wf(),
    {
        let r = MetadataRegistry { entries: Vec::new() };
        proof {
            assert(r@ =~= Seq::<(Seq<u8>, MetadataRecordView)>::empty());
        }
        r
    }

    /// Reads the record registered for a counter, if any.
    pub fn read(&self, counter_id: &Identity) -> (r: Option<&MetadataRecord>)
        requires
            self.wf(),
        ensures
            match r {
                Some(m) => lookup(self@, counter_id@) == Some(m@) && m.wf(),
                None => lookup(self@, counter_id@) is None,
            },
    {
        let n = self.entries.len();
        let mut i: usize = 0;
        while i < n
            invariant
                n == self.entries.len(),
                i <= n,
                self.wf(),
                forall|j: int| 0 <= j < i ==> (#[trigger] self@[j]).0 != counter_id@,
            decreases n - i,
        {
            if &self.entries[i].0 == counter_id {
                proof {
                    lemma_lookup_at_index(self@, i as int);
                }
                return Some(&self.entries[i].1);
            }
            i += 1;
        }
        proof {
            lemma_lookup_none(self@, counter_id@);
        }
        None
    }

    /// How many records have been registered.
    pub fn len(&self) -> (r: usize)
        ensures
            r == self@.len(),
    {
        self.entries.len()
    }
}

/// Metadata adapter: registers the one descriptive record of `counter`,
/// under the authority proof that must match the counter's issuance
/// authority (the registry only lets a counter's issuer describe it). Fails
/// with `AuthorityMismatch` on a wrong proof and with `AlreadyExists` if the
/// counter already has a record; on failure nothing changes. A fresh record
/// starts with no primary sale recorded.
pub fn create_metadata(
    registry: &mut MetadataRegistry,
    counter: &Counter,
    name: Vec<u8>,
    symbol: Vec<u8>,
    uri: Vec<u8>,
    creators: Vec<CreatorShare>,
    seller_fee_basis_points: u16,
    is_mutable: bool,
    update_authority: &Identity,
    authority: &Identity,
) -> (r: Result<(), ChannelError>)
    requires
        old(registry).wf(),
        counter.wf(),
        update_authority.wf(),
    ensures
        r == if counter@.issuance_authority != Some(authority@) {
            Result::<(), ChannelError>::Err(ChannelError::AuthorityMismatch)
        } else if contains_key(old(registry)@, counter@.id) {
            Result::<(), ChannelError>::Err(ChannelError::AlreadyExists)
        } else {
            Result::<(), ChannelError>::Ok(())
        },
        r is Ok ==> final(registry)@ == old(registry)@.push(
            (
                counter@.id,
                MetadataRecordView {
                    data: RecordDataView {
                        name: name@,
                        symbol: symbol@,
                        uri: uri@,
                        seller_fee_basis_points,
                        creators: shares_view(creators@),
                    },
                    update_authority: update_authority@,
                    is_mutable,
                    primary_sale_happened: false,
                },
            ),
        ) && final(registry).wf(),
        r is Err ==> *final(registry) == *old(registry),
{
    let authority_matches = match &counter.issuance_authority {
        Some(a) => a == authority,
        None => false,
    };
    if !authority_matches {
        return Err(ChannelError::AuthorityMismatch);
    }
    let n = registry.entries.len();
    let mut i: usize = 0;
    while i < n
        invariant
            n == registry.entries.len(),
            *registry == *old(registry),
            registry.wf(),
            counter@.issuance_authority == Some(authority@),
            i <= n,
            forall|j: int| 0 <= j < i ==> (#[trigger] registry@[j]).0 != counter@.id,
        decreases n - i,
    {
        if &registry.entries[i].0 == &counter.id {
            proof {
                lemma_lookup_at_index(registry@, i as int);
            }
            return Err(ChannelError::AlreadyExists);
        }
        i += 1;
    }
    proof {
        lemma_lookup_none(registry@, counter@.id);
    }
    let ghost old_view = registry@;
    let record = MetadataRecord {
        data: RecordData { name, symbol, uri, seller_fee_basis_points, creators },
        update_authority: update_authority.clone(),
        is_mutable,
        primary_sale_happened: false,
    };
    let key = counter.id.clone();
    let ghost key_view = key@;
    let ghost rec_view = record@;
    registry.entries.push((key, record));
    proof {
        assert(registry@ =~= old_view.push((key_view, rec_view)));
        assert forall|i2: int, j2: int| 0 <= i2 < j2 < registry@.len() implies (
        #[trigger] registry@[i2]).0 != (#[trigger] registry@[j2]).0 by {
            if j2 == registry@.len() - 1 {
                lemma_lookup_none(old_view, key_view);
            }
        }
    }
    Ok(())
}

/// Metadata adapter: updates the record registered for `counter_id`,
/// applying only the provided fields and retaining unset fields verbatim,
/// under the authority proof that must match the record's current update
/// authority. Fails as `update_metadata_outcome` says; on failure nothing
/// changes.
pub fn update_metadata(
    registry: &mut MetadataRegistry,
    counter_id: &Identity,
    new_update_authority: Option<Identity>,
    data: Option<RecordData>,
    primary_sale_happened: Option<bool>,
    authority: &Identity,
) -> (r: Result<(), ChannelError>)
    requires
        old(registry).wf(),
        match new_update_authority {
            Some(u) => u.wf(),
            None => true,
        },
    ensures
        r == update_metadata_outcome(old(registry)@, counter_id@, authority@),
        r is Ok ==> match lookup(old(registry)@, counter_id@) {
            Some(rec) => {
                &&& final(registry)@.len() == old(registry)@.len()
                &&& final(registry).wf()
                &&& forall|k: Seq<u8>|
                    #[trigger] lookup(final(registry)@, k) == if k == counter_id@ {
                        Some(
                            patched_record(
                                rec,
                                crate::counter::credential_view(new_update_authority),
                                data_patch_view(data),
                                primary_sale_happened,
                            ),
                        )
                    } else {
                        lookup(old(registry)@, k)
                    }
            },
            None => false,
        },
        r is Err ==> *final(registry) == *old(registry),
{
    let n = registry.entries.len();
    let mut i: usize = 0;
    while i < n
        invariant
            n == registry.entries.len(),
            *registry == *old(registry),
            registry.wf(),
            i <= n,
            match new_update_authority {
                Some(u) => u.wf(),
                None => true,
            },
            forall|j: int| 0 <= j < i ==> (#[trigger] registry@[j]).0 != counter_id@,
        decreases n - i,
    {
        if &registry.entries[i].0 == counter_id {
            proof {
                lemma_lookup_at_index(registry@, i as int);
            }
            let ghost rec0 = registry@[i as int].1;
            let ghost ua_view = crate::counter::credential_view(new_update_authority);
            let ghost dat_view = data_patch_view(data);
            let found_authority_matches = &registry.entries[i].1.update_authority == authority;
            if !found_authority_matches {
                return Err(ChannelError::AuthorityMismatch);
            }
            if !registry.entries[i].1.is_mutable {
                return Err(ChannelError::Immutable);
            }
            let new_data = match data {
                Some(d) => d,
                None => registry.entries[i].1.data.clone(),
            };
            let new_authority = match new_update_authority {
                Some(u) => u,
                None => registry.entries[i].1.update_authority.clone(),
            };
            let new_primary_sale = match primary_sale_happened {
                Some(p) => p,
                None => registry.entries[i].1.primary_sale_happened,
            };
            let new_record = MetadataRecord {
                data: new_data,
                update_authority: new_authority,
                is_mutable: registry.entries[i].1.is_mutable,
                primary_sale_happened: new_primary_sale,
            };
            let key = registry.entries[i].0.clone();
            let ghost old_view = registry@;
            let ghost rec_view = new_record@;
            registry.entries.set(i, (key, new_record));
            proof {
                assert(registry@ =~= old_view.update(
                    i as int,
                    (old_view[i as int].0, rec_view),
                ));
                assert(rec_view == patched_record(rec0, ua_view, dat_view, primary_sale_happened));
                assert forall|k: Seq<u8>| #[trigger] lookup(registry@, k) == if k == counter_id@ {
                    Some(rec_view)
                } else {
                    lookup(old_view, k)
                } by {
                    lemma_lookup_update(old_view, i as int, rec_view, k);
                }
                assert forall|i2: int, j2: int|
                    0 <= i2 < j2 < registry@.len() implies (#[trigger] registry@[i2]).0 != (
                #[trigger] registry@[j2]).0 by {
                    assert(old_view[i2].0 != old_view[j2].0);
                }
                assert(rec_view.wf());
                assert forall|i2: int|
                    0 <= i2 < registry@.len() implies (#[trigger] registry@[i2]).0.len() == 32
                    && registry@[i2].1.wf() by {
                    if i2 != i {
                        assert(registry@[i2] == old_view[i2]);
                    }
                }
            }
            return Ok(());
        }
        i += 1;
    }
    proof {
        lemma_lookup_none(registry@, counter_id@);
    }
    Err(ChannelError::PreconditionFailed)
}

} // verus!
