use vstd::prelude::*;
use crate::text::{
    decimal, digit_chars, hex, join, or_empty, decimal_string, hex_string, join_strings, push_optional,
};

verus! {

/// Everything a host tells about itself that goes into its fingerprint.
pub struct HostObservables {
    pub username: String,
    pub mac_addresses: Vec<String>,
    pub machine_id: Option<String>,
    pub disk_serials: Vec<String>,
    pub cpu_info: String,
    pub motherboard_serial: Option<String>,
}

/// Mathematical model of [`HostObservables`].
pub ghost struct ObservablesView {
    pub username: Seq<char>,
    pub mac_addresses: Seq<Seq<char>>,
    pub machine_id: Option<Seq<char>>,
    pub disk_serials: Seq<Seq<char>>,
    pub cpu_info: Seq<char>,
    pub motherboard_serial: Option<Seq<char>>,
}

impl View for HostObservables {
    type V = ObservablesView;

    open spec fn view(&self) -> ObservablesView {
        ObservablesView {
            username: self.username@,
            mac_addresses: self.mac_addresses.deep_view(),
            machine_id: self.machine_id.deep_view(),
            disk_serials: self.disk_serials.deep_view(),
            cpu_info: self.cpu_info@,
            motherboard_serial: self.motherboard_serial.deep_view(),
        }
    }
}

/// The fingerprint of one host for one format version.
pub struct MetaData {
    pub version: u8,
    pub username: String,
    pub mac_addresses: Vec<String>,
    pub machine_id: Option<String>,
    pub disk_serials: Vec<String>,
    pub cpu_info: String,
    pub motherboard_serial: Option<String>,
    pub collective_hash: String,
}

/// Mathematical model of [`MetaData`].
pub ghost struct IdentityView {
    pub version: u8,
    pub username: Seq<char>,
    pub mac_addresses: Seq<Seq<char>>,
    pub machine_id: Option<Seq<char>>,
    pub disk_serials: Seq<Seq<char>>,
    pub cpu_info: Seq<char>,
    pub motherboard_serial: Option<Seq<char>>,
    pub collective_hash: Seq<char>,
}

impl View for MetaData {
    type V = IdentityView;

    open spec fn view(&self) -> IdentityView {
        IdentityView {
            version: self.version,
            username: self.username@,
            mac_addresses: self.mac_addresses.deep_view(),
            machine_id: self.machine_id.deep_view(),
            disk_serials: self.disk_serials.deep_view(),
            cpu_info: self.cpu_info@,
            motherboard_serial: self.motherboard_serial.deep_view(),
            collective_hash: self.collective_hash@,
        }
    }
}

/// The 16 bytes of the MD5 digest of the UTF-8 encoding of `text`.
pub uninterp spec fn md5_of(text: Seq<char>) -> Seq<u8>;

/// Relies on md5::compute: the digest of the bytes handed to it, 16 bytes long.
#[verifier::external_body]
fn md5_digest(text: &String) -> (r: Vec<u8>)
    ensures
        r@ == md5_of(text@),
        r@.len() == 16,
{
    md5::compute(text.as_bytes()).0.to_vec()
}

/// The text that the digest is taken of: version, addresses joined by `_`, machine id if
/// present, storage names joined by `_`, CPU description, board serial if present.
pub open spec fn combined(id: IdentityView) -> Seq<char> {
    decimal(id.version as nat) + join(id.mac_addresses, seq!['_']) + or_empty(id.machine_id)
        + join(id.disk_serials, seq!['_']) + id.cpu_info + or_empty(id.motherboard_serial)
}

/// The digest of an identity: lowercase hex of the MD5 of its combined text.
pub open spec fn digest_of(id: IdentityView) -> Seq<char> {
    hex(md5_of(combined(id)))
}

/// `cur` is an identity the running host can have for `version`, with this machine id and board
/// serial: its digest is that of its fields.
pub open spec fn is_host_identity(
    cur: IdentityView,
    version: u8,
    machine_id: Option<Seq<char>>,
    motherboard_serial: Option<Seq<char>>,
) -> bool {
    &&& cur.version == version
    &&& cur.collective_hash == digest_of(cur)
    &&& cur.machine_id == machine_id
    &&& cur.motherboard_serial == motherboard_serial
}

/// Hex notation has two digits per byte, each one of the sixteen lowercase digits.
pub proof fn lemma_hex_shape(bytes: Seq<u8>)
    ensures
        hex(bytes).len() == 2 * bytes.len(),
        forall|i: int| 0 <= i < hex(bytes).len() ==> digit_chars().contains(#[trigger] hex(bytes)[i]),
    decreases bytes.len(),
{
    if bytes.len() > 0 {
        let rest = bytes.drop_last();
        lemma_hex_shape(rest);
        let b = bytes.last();
        let hi = digit_chars()[(b / 16) as int];
        let lo = digit_chars()[(b % 16) as int];
        assert(digit_chars().contains(hi));
        assert(digit_chars().contains(lo));
        assert forall|i: int| 0 <= i < hex(bytes).len() implies digit_chars().contains(
            #[trigger] hex(bytes)[i],
        ) by {
            if i < hex(rest).len() {
                assert(hex(bytes)[i] == hex(rest)[i]);
            }
        }
    }
}

/// The identity that a host with the observables `obs` has for `version`.
pub open spec fn identity_of(version: u8, obs: ObservablesView) -> IdentityView {
    let base = IdentityView {
        version,
        username: obs.username,
        mac_addresses: obs.mac_addresses,
        machine_id: obs.machine_id,
        disk_serials: obs.disk_serials,
        cpu_info: obs.cpu_info,
        motherboard_serial: obs.motherboard_serial,
        collective_hash: Seq::empty(),
    };
    IdentityView { collective_hash: digest_of(base), ..base }
}

/// Compares two lists of strings element by element.
fn same_strings(a: &Vec<String>, b: &Vec<String>) -> (r: bool)
    ensures
        r == (a.deep_view() == b.deep_view()),
{
    if a.len() != b.len() {
        assert(a.deep_view().len() != b.deep_view().len());
        return false;
    }
    let mut i: usize = 0;
    while i < a.len()
        invariant
            a@.len() == b@.len(),
            i <= a@.len(),
            forall|j: int| 0 <= j < i ==> a.deep_view()[j] == b.deep_view()[j],
        decreases a@.len() - i,
    {
        if a[i] != b[i] {
            assert(a.deep_view()[i as int] != b.deep_view()[i as int]);
            return false;
        }
        i = i + 1;
    }
    assert(a.deep_view() =~= b.deep_view());
    true
}

/// Compares two optional strings.
fn same_optional(a: &Option<String>, b: &Option<String>) -> (r: bool)
    ensures
        r == (a.deep_view() == b.deep_view()),
{
    match a {
        Some(x) => match b {
            Some(y) => String::eq(x, y),
            None => false,
        },
        None => match b {
            Some(_) => false,
            None => true,
        },
    }
}

impl PartialEq for MetaData {
    /// Structural equality: every field, the digest included.
    fn eq(&self, other: &MetaData) -> (r: bool) {
        self.version == other.version && self.username == other.username && same_strings(
            &self.mac_addresses,
            &other.mac_addresses,
        ) && same_optional(&self.machine_id, &other.machine_id) && same_strings(
            &self.disk_serials,
            &other.disk_serials,
        ) && self.cpu_info == other.cpu_info && same_optional(
            &self.motherboard_serial,
            &other.motherboard_serial,
        ) && self.collective_hash == other.collective_hash
    }
}

impl vstd::std_specs::cmp::PartialEqSpecImpl for MetaData {
    open spec fn obeys_eq_spec() -> bool {
        true
    }

    open spec fn eq_spec(&self, other: &MetaData) -> bool {
        self@ == other@
    }
}

impl MetaData {
    /// The digest stored in the identity is the one its other fields give.
    pub open spec fn wf(&self) -> bool {
        self.collective_hash@ == digest_of(self@)
    }

    /// Builds the text that the digest is taken of.
    pub fn combined_text(&self) -> (r: String)
        ensures
            r@ == combined(self@),
    {
        let mut out = decimal_string(self.version as u64);
        let macs = join_strings(&self.mac_addresses, "_");
        out.append(macs.as_str());
        push_optional(&mut out, &self.machine_id);
        let disks = join_strings(&self.disk_serials, "_");
        out.append(disks.as_str());
        out.append(self.cpu_info.as_str());
        push_optional(&mut out, &self.motherboard_serial);
        proof {
            reveal_strlit("_");
        }
        assert("_"@ =~= seq!['_']);
        out
    }

    /// Computes the digest of this identity from its fields (the stored digest aside).
    pub fn generate_unique_hash(&self) -> (r: String)
        ensures
            r@ == digest_of(self@),
            r@.len() == 32,
            forall|i: int| 0 <= i < r@.len() ==> digit_chars().contains(#[trigger] r@[i]),
    {
        let text = self.combined_text();
        let bytes = md5_digest(&text);
        proof {
            lemma_hex_shape(bytes@);
        }
        hex_string(&bytes)
    }

    /// The identity of a host with the observables `obs`, for `version`.
    pub fn from_observables(version: u8, obs: HostObservables) -> (r: MetaData)
        ensures
            r@ == identity_of(version, obs@),
            r.wf(),
    {
        let mut m = MetaData {
            version,
            username: obs.username,
            mac_addresses: obs.mac_addresses,
            machine_id: obs.machine_id,
            disk_serials: obs.disk_serials,
            cpu_info: obs.cpu_info,
            motherboard_serial: obs.motherboard_serial,
            collective_hash: String::new(),
        };
        m.collective_hash = m.generate_unique_hash();
        m
    }

    /// Whether this identity equals, field for field, the identity `current` of the host.
    pub fn matches_host(&self, current: &MetaData) -> (r: bool)
        ensures
            r == (self@ == current@),
    {
        self == current
    }

    /// Whether `hash` is the digest of the identity `current` of the host.
    pub fn matches_digest(hash: &str, current: &MetaData) -> (r: bool)
        ensures
            r == (hash@ == current.collective_hash@),
    {
        let h = String::from_str(hash);
        h == current.collective_hash
    }
}

/// A freshly built identity matches the host it was built on: building it again there, for
/// the version that it carries, gives an identity equal to it in every field.
pub proof fn lemma_fresh_identity_matches_host(version: u8, obs: ObservablesView)
    ensures
        identity_of(identity_of(version, obs).version, obs) == identity_of(version, obs),
{
}

/// The digest of a freshly built identity matches the digest that the same host gives again
/// for the version it carries, and it is the digest of the identity's own fields.
pub proof fn lemma_fresh_digest_matches(version: u8, obs: ObservablesView)
    ensures
        identity_of(identity_of(version, obs).version, obs).collective_hash == identity_of(
            version,
            obs,
        ).collective_hash,
        identity_of(version, obs).collective_hash == digest_of(identity_of(version, obs)),
{
}

} // verus!
