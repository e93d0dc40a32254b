use vstd::prelude::*;
use crate::Error;
use crate::identity::{HostObservables, IdentityView, MetaData, is_host_identity};
use crate::text::{decimal, decimal_string};

verus! {

#[verifier::external_type_specification]
#[verifier::external_body]
pub struct ExMacAddressError(mac_address::MacAddressError);

/// Relies on whoami::username: the name of the user running the process.
#[verifier::external_body]
fn current_username() -> (r: String) {
    whoami::username()
}

/// Relies on mac_address::get_mac_address: the hardware address of the primary interface,
/// written by `MacAddress`'s `Display` as six two-digit groups joined by `:`.
#[verifier::external_body]
fn primary_mac_address() -> (r: Result<Option<String>, mac_address::MacAddressError>)
    ensures
        r matches Ok(Some(s)) ==> s@.len() == 17,
{
    mac_address::get_mac_address().map(|found| found.map(|addr| addr.to_string()))
}

/// Relies on sysinfo's `Disks::new_with_refreshed_list`: the name of each disk the OS lists,
/// in its order, or `None` for a name that is not valid UTF-8.
#[verifier::external_body]
fn disk_names() -> (r: Vec<Option<String>>) {
    sysinfo::Disks::new_with_refreshed_list().iter().map(
        |disk| disk.name().to_str().map(|name| name.to_string()),
    ).collect()
}

/// Relies on sysinfo's `System::refresh_cpu_all` and `System::cpus`: brand and vendor id of
/// each logical CPU.
#[verifier::external_body]
fn cpu_list() -> (r: Vec<(String, String)>) {
    let mut system = sysinfo::System::new();
    system.refresh_cpu_all();
    system.cpus().iter().map(|cpu| (cpu.brand().to_string(), cpu.vendor_id().to_string())).collect()
}

/// The storage names worth keeping: those that are present and not empty, in order.
pub open spec fn named(names: Seq<Option<Seq<char>>>) -> Seq<Seq<char>>
    decreases names.len(),
{
    if names.len() == 0 {
        Seq::empty()
    } else {
        let rest = named(names.drop_last());
        match names.last() {
            Some(n) => if n.len() > 0 {
                rest.push(n)
            } else {
                rest
            },
            None => rest,
        }
    }
}

/// Text standing for a CPU field that could not be read.
pub open spec fn unknown() -> Seq<char> {
    seq!['u', 'n', 'k', 'n', 'o', 'w', 'n']
}

/// The CPU description: brand and vendor of the first CPU (or `unknown`), then the count.
pub open spec fn cpu_text(cpus: Seq<(Seq<char>, Seq<char>)>) -> Seq<char> {
    let brand = if cpus.len() > 0 { cpus[0].0 } else { unknown() };
    let vendor = if cpus.len() > 0 { cpus[0].1 } else { unknown() };
    brand + seq!['_'] + vendor + seq!['_'] + decimal(cpus.len()) + seq!['c', 'o', 'r', 'e', 's']
}

/// Keeps the storage names that are present and not empty, in their order.
pub fn storage_identifiers(names: Vec<Option<String>>) -> (r: Vec<String>)
    ensures
        r.deep_view() == named(names.deep_view()),
{
    let mut out: Vec<String> = Vec::new();
    let mut i: usize = 0;
    while i < names.len()
        invariant
            i <= names@.len(),
            out.deep_view() == named(names.deep_view().take(i as int)),
        decreases names@.len() - i,
    {
        assert(names.deep_view().take(i + 1).drop_last() =~= names.deep_view().take(i as int));
        match &names[i] {
            Some(n) => {
                if !n.as_str().is_empty() {
                    let ghost before = out.deep_view();
                    out.push(n.clone());
                    assert(out.deep_view() =~= before.push(n@));
                }
            },
            None => {},
        }
        i = i + 1;
    }
    assert(names.deep_view().take(i as int) =~= names.deep_view());
    out
}

/// Describes the CPUs as `brand_vendor_<count>cores`, from the first CPU of the list.
pub fn cpu_description(cpus: &Vec<(String, String)>) -> (r: String)
    ensures
        r@ == cpu_text(cpus.deep_view()),
{
    proof {
        reveal_strlit("unknown");
        reveal_strlit("_");
        reveal_strlit("cores");
    }
    let mut out = String::new();
    if cpus.len() > 0 {
        out.append(cpus[0].0.as_str());
        out.append("_");
        out.append(cpus[0].1.as_str());
    } else {
        out.append("unknown");
        out.append("_");
        out.append("unknown");
    }
    out.append("_");
    let count = decimal_string(cpus.len() as u64);
    out.append(count.as_str());
    out.append("cores");
    assert(out@ =~= cpu_text(cpus.deep_view()));
    out
}

/// Copies an optional string.
fn copy_optional(s: &Option<String>) -> (r: Option<String>)
    ensures
        r.deep_view() == s.deep_view(),
{
    match s {
        Some(v) => Some(v.clone()),
        None => None,
    }
}

/// The network addresses an identity records for the outcome of the hardware address lookup:
/// the address found, none where the host has none, and `HostQuery` where the lookup failed.
pub fn addresses_from(found: &Result<Option<String>, mac_address::MacAddressError>) -> (r: Result<
    Vec<String>,
    Error,
>)
    ensures
        match *found {
            Ok(Some(a)) => r matches Ok(v) && v.deep_view() == seq![a@],
            Ok(None) => r matches Ok(v) && v@.len() == 0,
            Err(_) => r == Err::<Vec<String>, Error>(Error::HostQuery),
        },
{
    match found {
        Ok(Some(addr)) => {
            let v = vec![addr.clone()];
            assert(v.deep_view() =~= seq![addr@]);
            Ok(v)
        },
        Ok(None) => Ok(Vec::new()),
        Err(_) => Err(Error::HostQuery),
    }
}

/// Gathers the observables of the running host. The machine id and the board serial come
/// from the platform and are handed in. Fails only where the network address lookup fails.
pub fn observe_host(machine_id: &Option<String>, motherboard_serial: &Option<String>) -> (r:
    Result<HostObservables, Error>)
    ensures
        r matches Err(e) ==> e == Error::HostQuery,
        r matches Ok(obs) ==> {
            &&& obs.machine_id.deep_view() == machine_id.deep_view()
            &&& obs.motherboard_serial.deep_view() == motherboard_serial.deep_view()
            &&& obs.mac_addresses@.len() <= 1
            &&& forall|i: int|
                0 <= i < obs.mac_addresses@.len() ==> obs.mac_addresses@[i]@.len() == 17
            &&& forall|i: int|
                0 <= i < obs.disk_serials@.len() ==> obs.disk_serials@[i]@.len() > 0
        },
{
    let found = primary_mac_address();
    let mac_addresses = match addresses_from(&found) {
        Ok(v) => v,
        Err(e) => {
            return Err(e);
        },
    };
    proof {
        match found {
            Ok(Some(a)) => {
                assert(mac_addresses.deep_view() == seq![a@]);
                assert(mac_addresses.deep_view().len() == 1);
                assert(mac_addresses@[0]@ == mac_addresses.deep_view()[0]);
            },
            _ => {},
        }
    }
    let names = disk_names();
    let ghost listed = names.deep_view();
    let disks = storage_identifiers(names);
    proof {
        lemma_named_all_not_empty(listed);
        assert forall|i: int| 0 <= i < disks@.len() implies disks@[i]@.len() > 0 by {
            assert(disks.deep_view()[i] == disks@[i]@);
        }
    }
    let cpus = cpu_list();
    Ok(
        HostObservables {
            username: current_username(),
            mac_addresses,
            machine_id: copy_optional(machine_id),
            disk_serials: disks,
            cpu_info: cpu_description(&cpus),
            motherboard_serial: copy_optional(motherboard_serial),
        },
    )
}

proof fn lemma_named_all_not_empty(names: Seq<Option<Seq<char>>>)
    ensures
        forall|i: int| 0 <= i < named(names).len() ==> #[trigger] named(names)[i].len() > 0,
    decreases names.len(),
{
    if names.len() > 0 {
        let rest = names.drop_last();
        lemma_named_all_not_empty(rest);
        assert forall|i: int| 0 <= i < named(names).len() implies #[trigger] named(names)[i].len()
            > 0 by {
            if i < named(rest).len() {
                assert(named(names)[i] == named(rest)[i]);
            }
        }
    }
}

impl MetaData {
    /// Builds the identity of the running host for `version`, the platform's machine id and
    /// board serial handed in. Fails with `HostQuery` only where the network address lookup
    /// fails.
    pub fn new(version: u8, machine_id: &Option<String>, motherboard_serial: &Option<String>) -> (r:
        Result<MetaData, Error>)
        ensures
            r matches Err(e) ==> e == Error::HostQuery,
            r matches Ok(m) ==> {
                &&& m.wf()
                &&& is_host_identity(m@, version, machine_id.deep_view(), motherboard_serial.deep_view())
                &&& m.version == version
                &&& m.machine_id.deep_view() == machine_id.deep_view()
                &&& m.motherboard_serial.deep_view() == motherboard_serial.deep_view()
            },
    {
        match observe_host(machine_id, motherboard_serial) {
            Ok(obs) => Ok(MetaData::from_observables(version, obs)),
            Err(e) => Err(e),
        }
    }

    /// Whether `metadata` is, field for field, the identity that the running host has for the
    /// version that `metadata` carries.
    pub fn check(metadata: &MetaData, machine_id: &Option<String>, motherboard_serial: &Option<
        String,
    >) -> (r: Result<bool, Error>)
        ensures
            r matches Err(e) ==> e == Error::HostQuery,
            r matches Ok(b) ==> exists|cur: IdentityView|
                {
                    &&& #[trigger] is_host_identity(
                        cur,
                        metadata.version,
                        machine_id.deep_view(),
                        motherboard_serial.deep_view(),
                    )
                    &&& b == (metadata@ == cur)
                },
            r == Ok::<bool, Error>(true) ==> {
                &&& metadata.wf()
                &&& metadata.machine_id.deep_view() == machine_id.deep_view()
                &&& metadata.motherboard_serial.deep_view() == motherboard_serial.deep_view()
            },
    {
        match MetaData::new(metadata.version, machine_id, motherboard_serial) {
            Ok(current) => {
                let r = metadata.matches_host(&current);
                assert(is_host_identity(
                    current@,
                    metadata.version,
                    machine_id.deep_view(),
                    motherboard_serial.deep_view(),
                ));
                Ok(r)
            },
            Err(e) => Err(e),
        }
    }

    /// Whether `hash` is the digest that the running host has for `version`.
    pub fn check_hash(hash: &str, version: u8, machine_id: &Option<String>, motherboard_serial: &Option<
        String,
    >) -> (r: Result<bool, Error>)
        ensures
            r matches Err(e) ==> e == Error::HostQuery,
            r matches Ok(b) ==> exists|cur: IdentityView|
                {
                    &&& #[trigger] is_host_identity(
                        cur,
                        version,
                        machine_id.deep_view(),
                        motherboard_serial.deep_view(),
                    )
                    &&& b == (hash@ == cur.collective_hash)
                },
    {
        match MetaData::new(version, machine_id, motherboard_serial) {
            Ok(current) => {
                let r = MetaData::matches_digest(hash, &current);
                assert(is_host_identity(current@, version, machine_id.deep_view(), motherboard_serial.deep_view()));
                Ok(r)
            },
            Err(e) => Err(e),
        }
    }
}

} // verus!
