//! What an observer shows of the host: memory and disks with human-readable
//! sizes, the engine's version, and its containers.
use vstd::prelude::*;
use vstd::string::*;

use crate::engine;

verus! {

/// The text that humansize gives for a byte count in decimal (SI) units.
pub uninterp spec fn decimal_size(bytes: u64) -> Seq<char>;

/// Relies on `humansize::format_size` with the `DECIMAL` options: the text
/// is a function of the byte count alone.
#[verifier::external_body]
fn format_size_decimal(bytes: u64) -> (r: String)
    ensures
        r@ == decimal_size(bytes),
{
    humansize::format_size(bytes, humansize::DECIMAL)
}

/// Relies on `chrono::DateTime::from_timestamp` and `chrono_humanize::HumanTime`:
/// how long ago the Unix time `seconds` was, measured against the clock, then
/// the instant itself. It depends on the time of the call, so nothing is
/// stated of it.
#[verifier::external_body]
fn describe_created(seconds: i64) -> (r: String) {
    let created = chrono::DateTime::from_timestamp(seconds, 0).unwrap_or_default();
    format!("{} ({:?})", chrono_humanize::HumanTime::from(created), created)
}

/// The character of decimal digit `d`.
pub open spec fn digit_char(d: nat) -> char {
    if d == 0 {
        '0'
    } else if d == 1 {
        '1'
    } else if d == 2 {
        '2'
    } else if d == 3 {
        '3'
    } else if d == 4 {
        '4'
    } else if d == 5 {
        '5'
    } else if d == 6 {
        '6'
    } else if d == 7 {
        '7'
    } else if d == 8 {
        '8'
    } else {
        '9'
    }
}

/// The decimal digits of `n`, most significant first, without leading zeros.
pub open spec fn decimal_digits(n: nat) -> Seq<char>
    decreases n,
{
    if n < 10 {
        seq![digit_char(n)]
    } else {
        decimal_digits(n / 10).push(digit_char(n % 10))
    }
}

/// The decimal text of `n`, with a leading `-` when it is negative.
pub open spec fn decimal_text(n: int) -> Seq<char> {
    if n < 0 {
        seq!['-'] + decimal_digits((-n) as nat)
    } else {
        decimal_digits(n as nat)
    }
}

fn digit_str(d: u64) -> (r: &'static str)
    requires
        d < 10,
    ensures
        r@ == seq![digit_char(d as nat)],
{
    proof {
        reveal_strlit("0");
        reveal_strlit("1");
        reveal_strlit("2");
        reveal_strlit("3");
        reveal_strlit("4");
        reveal_strlit("5");
        reveal_strlit("6");
        reveal_strlit("7");
        reveal_strlit("8");
        reveal_strlit("9");
    }
    if d == 0 {
        "0"
    } else if d == 1 {
        "1"
    } else if d == 2 {
        "2"
    } else if d == 3 {
        "3"
    } else if d == 4 {
        "4"
    } else if d == 5 {
        "5"
    } else if d == 6 {
        "6"
    } else if d == 7 {
        "7"
    } else if d == 8 {
        "8"
    } else {
        "9"
    }
}

fn digits_text(n: u64) -> (r: String)
    ensures
        r@ == decimal_digits(n as nat),
    decreases n,
{
    if n < 10 {
        String::from_str(digit_str(n))
    } else {
        digits_text(n / 10).concat(digit_str(n % 10))
    }
}

/// The decimal text of `n`.
pub fn decimal_string(n: i64) -> (r: String)
    ensures
        r@ == decimal_text(n as int),
{
    if n < 0 {
        let magnitude: u64 = (-(n as i128)) as u64;
        proof {
            reveal_strlit("-");
        }
        String::from_str("-").concat(digits_text(magnitude).as_str())
    } else {
        digits_text(n as u64)
    }
}

/// The texts of `names` joined by `sep`.
pub open spec fn joined(names: Seq<Seq<char>>, sep: Seq<char>) -> Seq<char>
    decreases names.len(),
{
    if names.len() == 0 {
        Seq::empty()
    } else if names.len() == 1 {
        names[0]
    } else {
        joined(names.drop_last(), sep) + sep + names.last()
    }
}

pub open spec fn strings_view(v: Seq<String>) -> Seq<Seq<char>> {
    v.map_values(|s: String| s@)
}

/// The names joined by `", "`.
pub fn join_names(names: &Vec<String>) -> (r: String)
    ensures
        r@ == joined(strings_view(names@), ", "@),
{
    if names.len() == 0 {
        return String::new();
    }
    let ghost v = strings_view(names@);
    let mut out = names[0].clone();
    let mut i: usize = 1;
    assert(v.subrange(0, 1).drop_last() =~= Seq::<Seq<char>>::empty());
    while i < names.len()
        invariant
            1 <= i <= names@.len(),
            v == strings_view(names@),
            out@ == joined(v.subrange(0, i as int), ", "@),
        decreases names@.len() - i,
    {
        out = out.concat(", ").concat(names[i].as_str());
        assert(v.subrange(0, i + 1).drop_last() =~= v.subrange(0, i as int));
        i = i + 1;
    }
    assert(v.subrange(0, names@.len() as int) =~= v);
    out
}

/// Memory figures of the host, in bytes.
pub struct MemoryInfo {
    pub total: u64,
    pub free: u64,
    pub available: u64,
    pub used: u64,
}

/// One disk of the host, sizes in bytes.
pub struct DiskInfo {
    pub name: String,
    pub kind: String,
    pub file_system: String,
    pub total_space: u64,
    pub available_space: u64,
}

/// Memory figures as shown.
pub struct Memory {
    pub total: String,
    pub free: String,
    pub available: String,
    pub used: String,
}

impl Memory {
    /// Each figure as a decimal size.
    pub fn new(m: &MemoryInfo) -> (r: Memory)
        ensures
            r.total@ == decimal_size(m.total),
            r.free@ == decimal_size(m.free),
            r.available@ == decimal_size(m.available),
            r.used@ == decimal_size(m.used),
    {
        Memory {
            total: format_size_decimal(m.total),
            free: format_size_decimal(m.free),
            available: format_size_decimal(m.available),
            used: format_size_decimal(m.used),
        }
    }
}

impl Default for Memory {
    /// Every figure reads `n/a` until a report comes.
    fn default() -> (r: Memory)
        ensures
            r.total@ == "n/a"@,
            r.free@ == "n/a"@,
            r.available@ == "n/a"@,
            r.used@ == "n/a"@,
    {
        Memory {
            total: String::from_str("n/a"),
            free: String::from_str("n/a"),
            available: String::from_str("n/a"),
            used: String::from_str("n/a"),
        }
    }
}

/// A disk as shown.
pub struct Disk {
    pub name: String,
    pub kind: String,
    pub file_system: String,
    pub total_space: String,
    pub available_space: String,
}

impl Disk {
    /// The disk's names as they are, its sizes as decimal sizes.
    pub fn new(d: &DiskInfo) -> (r: Disk)
        ensures
            r.name@ == d.name@,
            r.kind@ == d.kind@,
            r.file_system@ == d.file_system@,
            r.total_space@ == decimal_size(d.total_space),
            r.available_space@ == decimal_size(d.available_space),
    {
        Disk {
            name: d.name.clone(),
            kind: d.kind.clone(),
            file_system: d.file_system.clone(),
            total_space: format_size_decimal(d.total_space),
            available_space: format_size_decimal(d.available_space),
        }
    }
}

impl Default for Disk {
    /// Every field reads `n/a` until a report comes.
    fn default() -> (r: Disk)
        ensures
            r.name@ == "n/a"@,
            r.kind@ == "n/a"@,
            r.file_system@ == "n/a"@,
            r.total_space@ == "n/a"@,
            r.available_space@ == "n/a"@,
    {
        Disk {
            name: String::from_str("n/a"),
            kind: String::from_str("n/a"),
            file_system: String::from_str("n/a"),
            total_space: String::from_str("n/a"),
            available_space: String::from_str("n/a"),
        }
    }
}

pub open spec fn disk_shown(shown: Disk, d: DiskInfo) -> bool {
    &&& shown.name@ == d.name@
    &&& shown.kind@ == d.kind@
    &&& shown.file_system@ == d.file_system@
    &&& shown.total_space@ == decimal_size(d.total_space)
    &&& shown.available_space@ == decimal_size(d.available_space)
}

/// The host's disks as shown, in the order reported.
pub fn disks(list: &Vec<DiskInfo>) -> (r: Vec<Disk>)
    ensures
        r@.len() == list@.len(),
        forall|i: int| 0 <= i < list@.len() ==> disk_shown(#[trigger] r@[i], list@[i]),
{
    let mut out: Vec<Disk> = Vec::new();
    let mut i: usize = 0;
    while i < list.len()
        invariant
            i <= list@.len(),
            out@.len() == i,
            forall|j: int| 0 <= j < i ==> disk_shown(#[trigger] out@[j], list@[j]),
        decreases list@.len() - i,
    {
        out.push(Disk::new(&list[i]));
        i = i + 1;
    }
    out
}

/// The engine's version as shown.
pub struct Version {
    pub version: String,
    pub api_version: String,
}

impl Version {
    pub fn new(v: &engine::Version) -> (r: Version)
        ensures
            r.version@ == v.version@,
            r.api_version@ == v.api_version@,
    {
        Version { version: v.version.clone(), api_version: v.api_version.clone() }
    }
}

impl Default for Version {
    /// Both fields read `n/a` until a report comes.
    fn default() -> (r: Version)
        ensures
            r.version@ == "n/a"@,
            r.api_version@ == "n/a"@,
    {
        Version { version: String::from_str("n/a"), api_version: String::from_str("n/a") }
    }
}

/// A published port as shown.
pub struct Port {
    pub private_port: String,
    pub public_port: String,
    pub port_type: String,
}

impl Port {
    /// The port numbers in decimal, the type as it is.
    pub fn new(p: &engine::Port) -> (r: Port)
        ensures
            r.private_port@ == decimal_text(p.private_port as int),
            r.public_port@ == decimal_text(p.public_port as int),
            r.port_type@ == p.port_type@,
    {
        Port {
            private_port: decimal_string(p.private_port),
            public_port: decimal_string(p.public_port),
            port_type: p.port_type.clone(),
        }
    }
}

pub open spec fn port_shown(shown: Port, p: engine::Port) -> bool {
    &&& shown.private_port@ == decimal_text(p.private_port as int)
    &&& shown.public_port@ == decimal_text(p.public_port as int)
    &&& shown.port_type@ == p.port_type@
}

/// A container as shown.
pub struct Container {
    pub id: String,
    pub name: String,
    pub image: String,
    pub status: String,
    pub created: String,
    pub ports: Vec<Port>,
    pub logs: Vec<String>,
}

impl Container {
    /// The container as shown, with its creation time already described.
    pub fn with_created(c: &engine::Container, logs: Vec<String>, created: String) -> (r: Container)
        ensures
            r.id@ == c.id@,
            r.name@ == joined(strings_view(c.names@), ", "@),
            r.image@ == c.image@,
            r.status@ == c.status@,
            r.created@ == created@,
            r.ports@.len() == c.ports@.len(),
            forall|i: int| 0 <= i < c.ports@.len() ==> port_shown(#[trigger] r.ports@[i], c.ports@[i]),
            r.logs@ == logs@,
    {
        let mut ports: Vec<Port> = Vec::new();
        let mut i: usize = 0;
        while i < c.ports.len()
            invariant
                i <= c.ports@.len(),
                ports@.len() == i,
                forall|j: int| 0 <= j < i ==> port_shown(#[trigger] ports@[j], c.ports@[j]),
            decreases c.ports@.len() - i,
        {
            ports.push(Port::new(&c.ports[i]));
            i = i + 1;
        }
        Container {
            id: c.id.clone(),
            name: join_names(&c.names),
            image: c.image.clone(),
            status: c.status.clone(),
            created,
            ports,
            logs,
        }
    }

    /// The container as shown; its creation time is described against the
    /// current time.
    pub fn new(c: &engine::Container, logs: Vec<String>) -> (r: Container)
        ensures
            r.id@ == c.id@,
            r.name@ == joined(strings_view(c.names@), ", "@),
            r.image@ == c.image@,
            r.status@ == c.status@,
            r.ports@.len() == c.ports@.len(),
            forall|i: int| 0 <= i < c.ports@.len() ==> port_shown(#[trigger] r.ports@[i], c.ports@[i]),
            r.logs@ == logs@,
    {
        let created = describe_created(c.created);
        Container::with_created(c, logs, created)
    }
}

/// The engine's state as shown: its containers and its version.
pub struct DockerState {
    pub containers: Vec<Container>,
    pub version: Version,
}

impl Default for DockerState {
    /// No containers, and a version that reads `n/a`.
    fn default() -> (r: DockerState)
        ensures
            r.containers@.len() == 0,
            r.version.version@ == "n/a"@,
            r.version.api_version@ == "n/a"@,
    {
        DockerState { containers: Vec::new(), version: Version::default() }
    }
}

} // verus!
