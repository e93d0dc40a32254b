use vstd::prelude::*;
use vstd::slice::slice_subrange;
use vstd::bytes::{lemma_auto_spec_u64_to_from_le_bytes, spec_u64_from_le_bytes, spec_u64_to_le_bytes, u64_from_le_bytes, u64_to_le_bytes};
use crate::Error;
use crate::identity::{IdentityView, MetaData, is_host_identity};

verus! {

#[verifier::external_type_specification]
#[verifier::external_body]
pub struct ExBincodeErrorKind(bincode::ErrorKind);

/// Length of the magic sequence that opens every container.
pub const MAGIC_LEN: usize = 11;

/// Length of the frame before the body: magic, version byte, 8-byte body length.
pub const HEADER_LEN: usize = 20;

/// The magic sequence, the ASCII text `CODENAME-NT`.
pub open spec fn magic() -> Seq<u8> {
    seq![67u8, 79u8, 68u8, 69u8, 78u8, 65u8, 77u8, 69u8, 45u8, 78u8, 84u8]
}

/// The serialized body of a container holding `body`: the identity, then the payload.
pub uninterp spec fn encoded_body(body: (IdentityView, Seq<u8>)) -> Seq<u8>;

/// What deserializing `bytes` as a body gives: `None` where they are not one.
pub uninterp spec fn decoded_body(bytes: Seq<u8>) -> Option<(IdentityView, Seq<u8>)>;

/// `bytes` are a container frame with this version byte around exactly this body.
pub open spec fn is_frame(bytes: Seq<u8>, version: u8, body: Seq<u8>) -> bool {
    &&& bytes.len() == HEADER_LEN + body.len()
    &&& bytes.subrange(0, MAGIC_LEN as int) == magic()
    &&& bytes[MAGIC_LEN as int] == version
    &&& body.len() <= u64::MAX
    &&& bytes.subrange(MAGIC_LEN + 1, HEADER_LEN as int) == spec_u64_to_le_bytes(body.len() as u64)
    &&& bytes.subrange(HEADER_LEN as int, bytes.len() as int) == body
}

/// The outcome of decoding `bytes`: the checks in order, the body bounded by its declared
/// length (bytes past it are not part of the container).
pub open spec fn decode_spec(bytes: Seq<u8>) -> Result<(IdentityView, Seq<u8>), Error> {
    if bytes.len() < HEADER_LEN {
        Err(Error::TruncatedContainer)
    } else if bytes.subrange(0, MAGIC_LEN as int) != magic() {
        Err(Error::UnrecognizedFormat)
    } else {
        let version = bytes[MAGIC_LEN as int];
        let declared = spec_u64_from_le_bytes(bytes.subrange(MAGIC_LEN + 1, HEADER_LEN as int));
        if declared > bytes.len() - HEADER_LEN {
            Err(Error::TruncatedContainer)
        } else {
            match decoded_body(bytes.subrange(HEADER_LEN as int, HEADER_LEN + declared)) {
                None => Err(Error::Serialization),
                Some(found) => if found.0.version == version {
                    Ok(found)
                } else {
                    Err(Error::VersionMismatch)
                },
            }
        }
    }
}

/// The identity fields in the order they are serialized.
pub type IdentityFields = (u8, String, Vec<String>, Option<String>, Vec<String>, String, Option<String>, String);

/// Relies on bincode::serialize: the body's bytes, which bincode::deserialize turns back into
/// the same identity and payload. It succeeds: the default size limit is unbounded, and every
/// field is a number, a string, an option or a vector, whose lengths are known.
#[verifier::external_body]
fn serialize_body(identity: &MetaData, payload: &Vec<u8>) -> (r: Result<Vec<u8>, Box<bincode::ErrorKind>>)
    ensures
        r is Ok,
        r matches Ok(b) ==> b@ == encoded_body((identity@, payload@)),
        r matches Ok(b) ==> decoded_body(b@) == Some((identity@, payload@)),
{
    let m = identity;
    bincode::serialize(&((m.version, &m.username, &m.mac_addresses, &m.machine_id,
        &m.disk_serials, &m.cpu_info, &m.motherboard_serial, &m.collective_hash), payload))
}

/// Relies on bincode::deserialize: reads an identity and a payload from the front of `bytes`.
#[verifier::external_body]
fn deserialize_body(bytes: &[u8]) -> (r: Result<(MetaData, Vec<u8>), Box<bincode::ErrorKind>>)
    ensures
        match r {
            Ok((m, p)) => decoded_body(bytes@) == Some((m@, p@)),
            Err(_) => decoded_body(bytes@) is None,
        },
{
    let (f, payload): (IdentityFields, Vec<u8>) = bincode::deserialize(bytes)?;
    Ok((MetaData { version: f.0, username: f.1, mac_addresses: f.2, machine_id: f.3,
        disk_serials: f.4, cpu_info: f.5, motherboard_serial: f.6, collective_hash: f.7 }, payload))
}

/// The magic sequence as bytes.
pub fn magic_bytes() -> (r: Vec<u8>)
    ensures
        r@ == magic(),
{
    let r = vec![67u8, 79u8, 68u8, 69u8, 78u8, 65u8, 77u8, 69u8, 45u8, 78u8, 84u8];
    assert(r@ =~= magic());
    r
}

/// Frames `identity` and `payload` as a container with the version byte `version`:
/// magic, version, body length (8 bytes, little-endian), body.
pub fn encode(identity: &MetaData, payload: &Vec<u8>, version: u8) -> (r: Result<Vec<u8>, Error>)
    ensures
        r is Ok,
        r matches Ok(b) ==> is_frame(b@, version, encoded_body((identity@, payload@))),
        r matches Ok(b) ==> (identity.version == version ==> decode_spec(b@) == Ok::<
            (IdentityView, Seq<u8>),
            Error,
        >((identity@, payload@))),
        r matches Ok(b) ==> (identity.version != version ==> decode_spec(b@) == Err::<
            (IdentityView, Seq<u8>),
            Error,
        >(Error::VersionMismatch)),
{
    let mut body = match serialize_body(identity, payload) {
        Ok(b) => b,
        Err(_) => {
            return Err(Error::Serialization);
        },
    };
    let ghost body_seq = body@;
    let mut out = magic_bytes();
    out.push(version);
    let mut length = u64_to_le_bytes(body.len() as u64);
    let ghost length_seq = length@;
    out.append(&mut length);
    out.append(&mut body);
    assert(out@.subrange(0, MAGIC_LEN as int) =~= magic());
    assert(out@.subrange(MAGIC_LEN + 1, HEADER_LEN as int) =~= length_seq);
    assert(out@.subrange(HEADER_LEN as int, out@.len() as int) =~= body_seq);
    proof {
        lemma_frame_decodes(out@, version, body_seq);
    }
    Ok(out)
}

/// Decoding a frame reads back the body it was built around.
pub proof fn lemma_frame_decodes(bytes: Seq<u8>, version: u8, body: Seq<u8>)
    requires
        is_frame(bytes, version, body),
    ensures
        decode_spec(bytes) == match decoded_body(body) {
            None => Err(Error::Serialization),
            Some(found) => if found.0.version == version {
                Ok(found)
            } else {
                Err(Error::VersionMismatch)
            },
        },
{
    lemma_auto_spec_u64_to_from_le_bytes();
    assert(bytes.subrange(HEADER_LEN as int, HEADER_LEN + body.len()) =~= body);
}

/// Checks the frame of `data` and reads the identity and payload it holds, in this order:
/// length floor, magic, declared length, body, version agreement.
pub fn decode(data: &[u8]) -> (r: Result<(MetaData, Vec<u8>), Error>)
    ensures
        match r {
            Ok((m, p)) => decode_spec(data@) == Ok::<(IdentityView, Seq<u8>), Error>((m@, p@)),
            Err(e) => decode_spec(data@) == Err::<(IdentityView, Seq<u8>), Error>(e),
        },
{
    if data.len() < HEADER_LEN {
        return Err(Error::TruncatedContainer);
    }
    let expected = magic_bytes();
    let mut i: usize = 0;
    while i < MAGIC_LEN
        invariant
            data@.len() >= HEADER_LEN,
            expected@ == magic(),
            i <= MAGIC_LEN,
            forall|j: int| 0 <= j < i ==> data@[j] == magic()[j],
        decreases MAGIC_LEN - i,
    {
        if data[i] != expected[i] {
            assert(data@.subrange(0, MAGIC_LEN as int)[i as int] != magic()[i as int]);
            return Err(Error::UnrecognizedFormat);
        }
        i = i + 1;
    }
    assert(data@.subrange(0, MAGIC_LEN as int) =~= magic());
    let version = data[MAGIC_LEN];
    let declared = u64_from_le_bytes(slice_subrange(data, MAGIC_LEN + 1, HEADER_LEN));
    if declared > (data.len() - HEADER_LEN) as u64 {
        return Err(Error::TruncatedContainer);
    }
    let body = slice_subrange(data, HEADER_LEN, HEADER_LEN + declared as usize);
    match deserialize_body(body) {
        Ok((m, p)) => {
            if m.version != version {
                Err(Error::VersionMismatch)
            } else {
                Ok((m, p))
            }
        },
        Err(_) => Err(Error::Serialization),
    }
}

/// A buffer shorter than the frame's header is refused as truncated.
pub proof fn lemma_short_buffer_is_truncated(bytes: Seq<u8>)
    requires
        bytes.len() < HEADER_LEN,
    ensures
        decode_spec(bytes) == Err::<(IdentityView, Seq<u8>), Error>(Error::TruncatedContainer),
{
}

/// A buffer long enough for a header whose leading bytes are not the magic sequence is refused
/// as of an unrecognized format.
pub proof fn lemma_foreign_magic_is_unrecognized(bytes: Seq<u8>)
    requires
        bytes.len() >= HEADER_LEN,
        bytes.subrange(0, MAGIC_LEN as int) != magic(),
    ensures
        decode_spec(bytes) == Err::<(IdentityView, Seq<u8>), Error>(Error::UnrecognizedFormat),
{
}

/// Decoding reads the container and nothing else: the same bytes give the same outcome each
/// time.
pub proof fn lemma_decode_is_repeatable(bytes: Seq<u8>, first: Seq<u8>, second: Seq<u8>)
    requires
        first == bytes,
        second == bytes,
    ensures
        decode_spec(first) == decode_spec(second),
{
}

/// A package in the making: the identity it is bound to and the compressed payload.
pub struct Bundle {
    pub metadata: MetaData,
    pub data: Vec<u8>,
}

impl Bundle {
    /// A bundle bound to `metadata`, with no payload yet.
    pub fn new(metadata: MetaData) -> (r: Bundle)
        ensures
            r.metadata == metadata,
            r.data@.len() == 0,
    {
        Bundle { metadata, data: Vec::new() }
    }

    /// Packages `archive` (a compressed directory tree) with this bundle's identity, under
    /// the version byte `version`.
    pub fn create(&self, archive: &Vec<u8>, version: u8) -> (r: Result<Vec<u8>, Error>)
        ensures
            r is Ok,
            r matches Ok(b) ==> is_frame(b@, version, encoded_body((self.metadata@, archive@))),
            r matches Ok(b) ==> (self.metadata.version == version ==> decode_spec(b@) == Ok::<
                (IdentityView, Seq<u8>),
                Error,
            >((self.metadata@, archive@))),
            r matches Ok(b) ==> (self.metadata.version != version ==> decode_spec(b@) == Err::<
                (IdentityView, Seq<u8>),
                Error,
            >(Error::VersionMismatch)),
    {
        encode(&self.metadata, archive, version)
    }
}

/// An unpacked container: its payload and the identity it was bound to.
pub struct Dismantle {
    pub data: Vec<u8>,
    pub metadata: MetaData,
}

impl Dismantle {
    /// Unpacks the container `data`, with the checks of [`decode`].
    pub fn new(data: &[u8]) -> (r: Result<Dismantle, Error>)
        ensures
            match r {
                Ok(d) => decode_spec(data@) == Ok::<(IdentityView, Seq<u8>), Error>(
                    (d.metadata@, d.data@),
                ),
                Err(e) => decode_spec(data@) == Err::<(IdentityView, Seq<u8>), Error>(e),
            },
    {
        match decode(data) {
            Ok((metadata, payload)) => Ok(Dismantle { data: payload, metadata }),
            Err(e) => Err(e),
        }
    }

    /// The payload.
    pub fn get(&self) -> (r: Vec<u8>)
        ensures
            r@ == self.data@,
    {
        let r = self.data.clone();
        assert(r@ =~= self.data@);
        r
    }

    /// The digest of the identity the container was bound to.
    pub fn get_meta(&self) -> (r: String)
        ensures
            r@ == self.metadata.collective_hash@,
    {
        self.metadata.collective_hash.clone()
    }
}

/// Checks of a container's binding to a machine.
pub struct Validation {}

impl Validation {
    /// A validator; it holds nothing.
    pub fn new() -> (r: Validation) {
        Validation {}
    }

    /// Whether the container `data` is bound to the identity `current`: the checks of
    /// [`decode`], then structural equality of the embedded identity with `current`.
    pub fn validate_against(data: &[u8], current: &MetaData) -> (r: Result<bool, Error>)
        ensures
            match decode_spec(data@) {
                Ok(found) => r == Ok::<bool, Error>(found.0 == current@),
                Err(e) => r == Err::<bool, Error>(e),
            },
    {
        match decode(data) {
            Ok((m, _)) => Ok(m.matches_host(current)),
            Err(e) => Err(e),
        }
    }

    /// Whether the container `data` is bound to the running host: the checks of [`decode`],
    /// then the embedded identity against the host's identity for the version it carries.
    /// The host's machine id and board serial are handed in. A structural error is
    /// [`decode`]'s; after a valid decode the only error is a failed host query.
    pub fn validate_meta(
        data: &[u8],
        machine_id: &Option<String>,
        motherboard_serial: &Option<String>,
    ) -> (r: Result<bool, Error>)
        ensures
            decode_spec(data@) matches Err(e) ==> r == Err::<bool, Error>(e),
            decode_spec(data@) is Ok ==> (r matches Err(e) ==> e == Error::HostQuery),
            r matches Ok(b) ==> (decode_spec(data@) matches Ok(found) && exists|cur: IdentityView|
                {
                    &&& #[trigger] is_host_identity(
                        cur,
                        found.0.version,
                        machine_id.deep_view(),
                        motherboard_serial.deep_view(),
                    )
                    &&& b == (found.0 == cur)
                }),
    {
        match decode(data) {
            Ok((m, _)) => match MetaData::new(m.version, machine_id, motherboard_serial) {
                Ok(current) => Ok(m.matches_host(&current)),
                Err(e) => Err(e),
            },
            Err(e) => Err(e),
        }
    }

    /// Whether `hash` is the digest of the running host for `version`. Reads no container.
    pub fn validate_meta_hash(
        version: u8,
        hash: &str,
        machine_id: &Option<String>,
        motherboard_serial: &Option<String>,
    ) -> (r: Result<bool, Error>)
        ensures
            r matches Err(e) ==> e == Error::HostQuery,
            r matches Ok(b) ==> exists|cur: IdentityView|
                {
                    &&& #[trigger] is_host_identity(
                        cur,
                        version,
                        machine_id.deep_view(),
                        motherboard_serial.deep_view(),
                    )
                    &&& b == (hash@ == cur.collective_hash)
                },
    {
        MetaData::check_hash(hash, version, machine_id, motherboard_serial)
    }
}

} // verus!
