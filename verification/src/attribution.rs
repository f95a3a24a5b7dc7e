use vstd::prelude::*;

use crate::errors::ChannelError;
use crate::identity::Identity;
use crate::store::{contains_key, distinct_keys, lookup};
use crate::store::{lemma_lookup_at_index, lemma_lookup_none, lemma_lookup_push};

verus! {

/// The durable record binding a channel's ownership counter, its
/// subscription counter, and the identity that created them. For a
/// name-indexed record, `name` holds the normalized channel name; for a
/// pair-indexed record it is absent. Records are write-once: created exactly
/// once during channel creation and never mutated or destroyed.
pub struct ChannelAttribution {
    pub creator: Identity,
    pub channel: Identity,
    pub subscription: Identity,
    pub name: Option<Vec<u8>>,
}

/// The mathematical model of a `ChannelAttribution`.
pub ghost struct AttributionView {
    pub creator: Seq<u8>,
    pub channel: Seq<u8>,
    pub subscription: Seq<u8>,
    pub name: Option<Seq<u8>>,
}

impl AttributionView {
    pub open spec fn wf(self) -> bool {
        &&& self.creator.len() == 32
        &&& self.channel.len() == 32
        &&& self.subscription.len() == 32
        &&& match self.name {
            Some(n) => n.len() <= u32::MAX,
            None => true,
        }
    }
}

impl View for ChannelAttribution {
    type V = AttributionView;

    open spec fn view(&self) -> AttributionView {
        AttributionView {
            creator: self.creator@,
            channel: self.channel@,
            subscription: self.subscription@,
            name: match self.name {
                Some(n) => Some(n@),
                None => None,
            },
        }
    }
}

impl ChannelAttribution {
    pub open spec fn wf(&self) -> bool {
        self@.wf()
    }
}

impl Clone for ChannelAttribution {
    fn clone(&self) -> (r: Self)
        ensures
            r@ == self@,
    {
        let name: Option<Vec<u8>> = match &self.name {
            Some(n) => {
                let c = n.clone();
                assert(c@ =~= n@);
                Some(c)
            },
            None => None,
        };
        ChannelAttribution {
            creator: self.creator.clone(),
            channel: self.channel.clone(),
            subscription: self.subscription.clone(),
            name,
        }
    }
}

/// Durable key-to-record mapping from derived addresses to attribution
/// records. The only write operation is "create if absent"; that a second
/// create of the same address fails is the protocol's whole uniqueness and
/// concurrency-control mechanism, so no update or delete is exposed.
pub struct AttributionStore {
    entries: Vec<(Identity, ChannelAttribution)>,
}

impl View for AttributionStore {
    type V = Seq<(Seq<u8>, AttributionView)>;

    closed spec fn view(&self) -> Seq<(Seq<u8>, AttributionView)> {
        self.entries@.map_values(|e: (Identity, ChannelAttribution)| (e.0@, e.1@))
    }
}

impl AttributionStore {
    /// A well-formed store binds each 32-byte address to at most one
    /// well-formed record.
    pub open spec fn wf(&self) -> bool {
        &&& distinct_keys(self@)
        &&& forall|i: int|
            0 <= i < self@.len() ==> (#[trigger] self@[i]).0.len() == 32 && self@[i].1.wf()
    }

    /// An empty store.
    pub fn new() -> (r: Self)
        ensures
            r@ == Seq::<(Seq<u8>, AttributionView)>::empty(),
            r.wf(),
    {
        let r = AttributionStore { entries: Vec::new() };
        proof {
            assert(r@ =~= Seq::<(Seq<u8>, AttributionView)>::empty());
        }
        r
    }

    /// Writes `record` at `address`, failing with `AlreadyExists` if and only
    /// if the address is already occupied; on failure nothing changes. This
    /// failure is the mechanism by which duplicate channel names and
    /// duplicate counter pairs are rejected.
    pub fn create(&mut self, address: Identity, record: ChannelAttribution) -> (r: Result<
        (),
        ChannelError,
    >)
        requires
            old(self).wf(),
            address.wf(),
            record.wf(),
        ensures
            r == if contains_key(old(self)@, address@) {
                Result::<(), ChannelError>::Err(ChannelError::AlreadyExists)
            } else {
                Result::<(), ChannelError>::Ok(())
            },
            r is Ok ==> final(self)@ == old(self)@.push((address@, record@)) && final(self).wf(),
            r is Err ==> *final(self) == *old(self),
    {
        let n = self.entries.len();
        let mut i: usize = 0;
        while i < n
            invariant
                n == self.entries.len(),
                i <= n,
                self.wf(),
                forall|j: int| 0 <= j < i ==> (#[trigger] self@[j]).0 != address@,
            decreases n - i,
        {
            if &self.entries[i].0 == &address {
                proof {
                    assert(self@[i as int].0 == address@);
                    lemma_lookup_at_index(self@, i as int);
                }
                return Err(ChannelError::AlreadyExists);
            }
            i += 1;
        }
        proof {
            lemma_lookup_none(self@, address@);
            assert(!contains_key(self@, address@));
        }
        let ghost old_view = self@;
        let ghost addr_view = address@;
        let ghost rec_view = record@;
        self.entries.push((address, record));
        proof {
            assert(self@ =~= old_view.push((addr_view, rec_view)));
            assert forall|i2: int, j2: int| 0 <= i2 < j2 < self@.len() implies (#[trigger] self@[i2]).0
                != (#[trigger] self@[j2]).0 by {
                if j2 == self@.len() - 1 {
                    lemma_lookup_none(old_view, addr_view);
                }
            }
        }
        Ok(())
    }

    /// Reads the record at `address`, or reports it was never created.
    pub fn read(&self, address: &Identity) -> (r: Option<&ChannelAttribution>)
        requires
            self.wf(),
        ensures
            match r {
                Some(a) => lookup(self@, address@) == Some(a@) && a.wf(),
                None => lookup(self@, address@) is None,
            },
    {
        let n = self.entries.len();
        let mut i: usize = 0;
        while i < n
            invariant
                n == self.entries.len(),
                i <= n,
                self.wf(),
                forall|j: int| 0 <= j < i ==> (#[trigger] self@[j]).0 != address@,
            decreases n - i,
        {
            if &self.entries[i].0 == address {
                proof {
                    lemma_lookup_at_index(self@, i as int);
                }
                return Some(&self.entries[i].1);
            }
            i += 1;
        }
        proof {
            lemma_lookup_none(self@, address@);
        }
        None
    }

    /// How many records have been created.
    pub fn len(&self) -> (r: usize)
        ensures
            r == self@.len(),
    {
        self.entries.len()
    }
}

/// The four little-endian bytes of a length below 2^32, least significant
/// first.
pub open spec fn le32(n: nat) -> Seq<u8> {
    seq![
        (n % 256) as u8,
        ((n / 256) % 256) as u8,
        (((n / 256) / 256) % 256) as u8,
        ((((n / 256) / 256) / 256) % 256) as u8,
    ]
}

/// The canonical persisted byte layout of an attribution record, which must
/// remain stable across versions that read it: the three 32-byte identities
/// in order, then a one-byte tag for the optional name (0 absent, 1
/// present), then, when present, the name's length as four little-endian
/// bytes followed by its bytes.
pub open spec fn encode_spec(a: AttributionView) -> Seq<u8> {
    a.creator + a.channel + a.subscription + (match a.name {
        None => seq![0u8],
        Some(n) => seq![1u8] + le32(n.len()) + n,
    })
}

/// The record a byte string holds under the canonical layout, or `None` if
/// the bytes are not a complete, exact encoding.
pub open spec fn decode_spec(b: Seq<u8>) -> Option<AttributionView> {
    if b.len() < 97 {
        None
    } else {
        let creator = b.subrange(0, 32);
        let channel = b.subrange(32, 64);
        let subscription = b.subrange(64, 96);
        if b[96] == 0 {
            if b.len() == 97 {
                Some(AttributionView { creator, channel, subscription, name: None })
            } else {
                None
            }
        } else if b[96] == 1 {
            if b.len() < 101 {
                None
            } else {
                let n = (b[97] as nat) + 256 * (b[98] as nat) + 65536 * (b[99] as nat) + 16777216
                    * (b[100] as nat);
                if b.len() == 101 + n {
                    Some(
                        AttributionView {
                            creator,
                            channel,
                            subscription,
                            name: Some(b.subrange(101, 101 + n as int)),
                        },
                    )
                } else {
                    None
                }
            }
        } else {
            None
        }
    }
}

/// Appends all of `src` to `out`.
fn append_bytes(out: &mut Vec<u8>, src: &Vec<u8>)
    ensures
        final(out)@ == old(out)@ + src@,
{
    let n = src.len();
    let mut i: usize = 0;
    while i < n
        invariant
            n == src@.len(),
            i <= n,
            out@ == old(out)@ + src@.take(i as int),
        decreases n - i,
    {
        out.push(src[i]);
        proof {
            assert(old(out)@ + src@.take(i + 1) =~= (old(out)@ + src@.take(i as int)).push(
                src@[i as int],
            ));
        }
        i += 1;
    }
    proof {
        assert(src@.take(n as int) =~= src@);
    }
}

/// Copies `src[start..end]` into a fresh vector.
fn copy_range(src: &Vec<u8>, start: usize, end: usize) -> (r: Vec<u8>)
    requires
        start <= end <= src@.len(),
    ensures
        r@ == src@.subrange(start as int, end as int),
{
    let mut out: Vec<u8> = Vec::new();
    let mut i: usize = start;
    while i < end
        invariant
            start <= i <= end <= src@.len(),
            out@ == src@.subrange(start as int, i as int),
        decreases end - i,
    {
        out.push(src[i]);
        proof {
            assert(src@.subrange(start as int, i + 1) =~= src@.subrange(start as int, i as int)
                .push(src@[i as int]));
        }
        i += 1;
    }
    out
}

/// Serializes an attribution record into its canonical persisted layout.
pub fn encode(a: &ChannelAttribution) -> (r: Vec<u8>)
    requires
        a.wf(),
    ensures
        r@ == encode_spec(a@),
{
    let mut out: Vec<u8> = Vec::new();
    append_bytes(&mut out, a.creator.as_bytes());
    append_bytes(&mut out, a.channel.as_bytes());
    append_bytes(&mut out, a.subscription.as_bytes());
    match &a.name {
        None => {
            out.push(0u8);
        },
        Some(n) => {
            out.push(1u8);
            let len = n.len();
            out.push((len % 256) as u8);
            out.push(((len / 256) % 256) as u8);
            out.push((((len / 256) / 256) % 256) as u8);
            out.push(((((len / 256) / 256) / 256) % 256) as u8);
            append_bytes(&mut out, n);
        },
    }
    proof {
        assert(out@ =~= encode_spec(a@));
    }
    out
}

/// Parses bytes in the canonical persisted layout back into an attribution
/// record; returns `None` exactly when the bytes are not a complete, exact
/// encoding.
pub fn decode(bytes: &Vec<u8>) -> (r: Option<ChannelAttribution>)
    ensures
        match r {
            Some(a) => decode_spec(bytes@) == Some(a@) && a.wf(),
            None => decode_spec(bytes@) is None,
        },
{
    if bytes.len() < 97 {
        return None;
    }
    let creator = Identity { bytes: copy_range(bytes, 0, 32) };
    let channel = Identity { bytes: copy_range(bytes, 32, 64) };
    let subscription = Identity { bytes: copy_range(bytes, 64, 96) };
    let tag = bytes[96];
    if tag == 0 {
        if bytes.len() == 97 {
            Some(ChannelAttribution { creator, channel, subscription, name: None })
        } else {
            None
        }
    } else if tag == 1 {
        if bytes.len() < 101 {
            return None;
        }
        let n64: u64 = (bytes[97] as u64) + 256 * (bytes[98] as u64) + 65536 * (bytes[99] as u64)
            + 16777216 * (bytes[100] as u64);
        if (bytes.len() - 101) as u64 == n64 {
            let name = copy_range(bytes, 101, bytes.len());
            proof {
                assert(bytes@.len() == 101 + n64);
            }
            Some(ChannelAttribution { creator, channel, subscription, name: Some(name) })
        } else {
            None
        }
    } else {
        None
    }
}

/// Layout stability: decoding the canonical encoding of any well-formed
/// attribution record yields exactly that record back.
pub proof fn lemma_encode_roundtrip(a: AttributionView)
    requires
        a.wf(),
    ensures
        decode_spec(encode_spec(a)) == Some(a),
{
    let b = encode_spec(a);
    assert(b.subrange(0, 32) =~= a.creator);
    assert(b.subrange(32, 64) =~= a.channel);
    assert(b.subrange(64, 96) =~= a.subscription);
    match a.name {
        None => {
            assert(b.len() == 97);
            assert(b[96] == 0);
        },
        Some(n) => {
            let len = n.len();
            assert(b.len() == 101 + len);
            assert(b[96] == 1);
            let b0 = len % 256;
            let q1 = len / 256;
            let b1 = q1 % 256;
            let q2 = q1 / 256;
            let b2 = q2 % 256;
            let q3 = q2 / 256;
            let b3 = q3 % 256;
            assert(b[97] == (b0 as u8) && b[98] == (b1 as u8) && b[99] == (b2 as u8) && b[100]
                == (b3 as u8));
            assert(len == 256 * q1 + b0);
            assert(q1 == 256 * q2 + b1);
            assert(q2 == 256 * q3 + b2);
            assert(q3 < 256) by {
                assert(len <= 0xffff_ffff);
                assert(q1 <= 0xff_ffff);
                assert(q2 <= 0xffff);
                assert(q3 <= 0xff);
            }
            assert(b3 == q3);
            assert(b0 + 256 * b1 + 65536 * b2 + 16777216 * b3 == len);
            assert((b[97] as nat) + 256 * (b[98] as nat) + 65536 * (b[99] as nat) + 16777216 * (
            b[100] as nat) == len);
            assert(b.subrange(101, 101 + len as int) =~= n);
        },
    }
}

} // verus!
