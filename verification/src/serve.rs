//! What serving the trees of programs decides: which port to try, in which
//! order the versions of a program are offered, and how they are named.
use vstd::prelude::*;
use crate::cli_navigator_toolkit::{
    extract_version_from_filename, format_timestamp, parse_semver, push_decimal, spec_decimal,
    spec_format_timestamp, spec_parse_semver, spec_version_from_filename,
};
use crate::text::{from_chars, push_chars, push_str, to_chars};
use crate::words::{last_index_of_char, rfind_char};

verus! {

/// The port that is tried first.
pub const PREFERRED_PORT: u16 = 8899;

/// How many ports are drawn at random once the first is taken.
pub const RANDOM_ATTEMPTS: u8 = 4;

/// A number drawn by `rand::random::<u16>()`. Nothing is claimed of it.
#[verifier::external_body]
fn random_u16() -> u16 {
    rand::random::<u16>()
}

/// The port that a number drawn at random stands for: one of the 2000
/// ports from 8000 on.
pub open spec fn spec_candidate_port(random: u16) -> u16 {
    (8000 + random % 2000) as u16
}

/// The port that the number `random` stands for.
pub fn candidate_port(random: u16) -> (r: u16)
    ensures
        r == spec_candidate_port(random),
        8000 <= r < 10000,
{
    8000 + random % 2000
}

/// A search for a port to serve on: the ports tried so far, and how many
/// more may be drawn.
pub struct PortSearch {
    tried: Vec<u16>,
    attempts_left: u8,
}

/// What a search for a port says next.
#[derive(Debug, Clone, Copy, PartialEq, Eq, Structural)]
pub enum PortStep {
    /// This port is to be tried.
    Try(u16),
    /// No more ports are drawn.
    GiveUp,
}

impl PortSearch {
    /// The ports tried so far, in their order.
    pub closed spec fn tried(&self) -> Seq<u16> {
        self.tried@
    }

    /// How many more ports may be drawn.
    pub closed spec fn attempts_left(&self) -> nat {
        self.attempts_left as nat
    }

    /// A search that starts with the port `start_port`, which the caller
    /// tries first.
    pub fn new(start_port: u16) -> (r: PortSearch)
        ensures
            r.tried() == seq![start_port],
            r.attempts_left() == RANDOM_ATTEMPTS,
    {
        let tried: Vec<u16> = vec![start_port];
        assert(tried@ =~= seq![start_port]);
        PortSearch { tried, attempts_left: RANDOM_ATTEMPTS }
    }

    /// Whether the port `port` was tried.
    fn was_tried(&self, port: u16) -> (r: bool)
        ensures
            r == self.tried().contains(port),
    {
        let mut i: usize = 0;
        while i < self.tried.len()
            invariant
                i <= self.tried.len(),
                forall|k: int| 0 <= k < i ==> self.tried@[k] != port,
            decreases self.tried.len() - i,
        {
            if self.tried[i] == port {
                return true;
            }
            i += 1;
        }
        false
    }

    /// The next port to try, once the port tried last is found taken. Ports
    /// are drawn at random; a draw that gives a port tried before is spent
    /// without a trial. Whatever is drawn, a port that is given was not
    /// tried before and lies from 8000 up to 9999, at least one draw is
    /// spent on it, and the search gives up only when no draw is left.
    pub fn next_port(&mut self) -> (r: PortStep)
        ensures
            match r {
                PortStep::Try(port) => {
                    &&& 8000 <= port < 10000
                    &&& !old(self).tried().contains(port)
                    &&& final(self).tried() == old(self).tried().push(port)
                    &&& final(self).attempts_left() < old(self).attempts_left()
                },
                PortStep::GiveUp => {
                    &&& final(self).tried() == old(self).tried()
                    &&& final(self).attempts_left() == 0
                },
            },
    {
        while self.attempts_left > 0
            invariant
                self.tried() == old(self).tried(),
                self.attempts_left() <= old(self).attempts_left(),
            decreases self.attempts_left,
        {
            self.attempts_left -= 1;
            let port = candidate_port(random_u16());
            if !self.was_tried(port) {
                self.tried.push(port);
                return PortStep::Try(port);
            }
        }
        PortStep::GiveUp
    }
}

/// What the versions of a program are ordered by: the three numbers of the
/// version, where it has them, and the time the file was made, in seconds.
pub struct VersionKey {
    pub semver: Option<(u32, u32, u32)>,
    pub created: u64,
}

/// Whether the version `a` is offered before the version `b`: a version of
/// three numbers before one without, of two such the greater first, and of
/// two without the one made later first.
pub open spec fn offered_before(a: VersionKey, b: VersionKey) -> bool {
    match (a.semver, b.semver) {
        (Some(x), Some(y)) => x.0 > y.0 || (x.0 == y.0 && (x.1 > y.1 || (x.1 == y.1 && x.2
            > y.2))),
        (Some(_), None) => true,
        (None, Some(_)) => false,
        (None, None) => a.created > b.created,
    }
}

/// Where a version with the key `key` goes among the first `n` of `keys`,
/// which are in order: before the versions at the end that it is offered
/// before.
pub open spec fn offer_position(keys: Seq<VersionKey>, key: VersionKey, n: int) -> int
    decreases n,
{
    if 0 < n <= keys.len() && offered_before(key, keys[n - 1]) {
        offer_position(keys, key, n - 1)
    } else {
        n
    }
}

/// The order in which the first `n` versions are offered: their indices,
/// versions that neither is offered before the other in their own order.
pub open spec fn offer_order(keys: Seq<VersionKey>, n: int) -> Seq<int>
    decreases n,
{
    if n <= 0 || n > keys.len() {
        Seq::empty()
    } else {
        let before = offer_order(keys, n - 1);
        let placed = Seq::new(before.len(), |k: int| keys[before[k]]);
        before.insert(offer_position(placed, keys[n - 1], placed.len() as int), n - 1)
    }
}

/// A file that holds one version of the tree of a program.
#[derive(Debug)]
pub struct VersionFile {
    pub filename: String,
    /// When the file was made, in seconds; 0 where that is not known.
    pub created: u64,
}

/// What a file is ordered by.
pub open spec fn version_key(filename: Seq<char>, created: u64) -> VersionKey {
    VersionKey { semver: spec_parse_semver(spec_version_from_filename(filename)), created }
}

/// What the files `files` are ordered by.
pub open spec fn version_keys(files: Seq<VersionFile>) -> Seq<VersionKey> {
    Seq::new(files.len(), |i: int| version_key(files[i].filename@, files[i].created))
}

/// Whether the version `a` is offered before the version `b`.
fn before(a: &VersionKey, b: &VersionKey) -> (r: bool)
    ensures
        r == offered_before(*a, *b),
{
    match (a.semver, b.semver) {
        (Some(x), Some(y)) => x.0 > y.0 || (x.0 == y.0 && (x.1 > y.1 || (x.1 == y.1 && x.2
            > y.2))),
        (Some(_), None) => true,
        (None, Some(_)) => false,
        (None, None) => a.created > b.created,
    }
}

/// The order in which the versions in `files` are offered, as indices into
/// `files`.
pub fn version_order(files: &Vec<VersionFile>) -> (r: Vec<usize>)
    ensures
        r.len() == files.len(),
        forall|k: int| 0 <= k < r.len() ==> r@[k] < files.len(),
        r@.map_values(|i: usize| i as int) == offer_order(
            version_keys(files@),
            files@.len() as int,
        ),
{
    let mut keys: Vec<VersionKey> = Vec::new();
    let mut i: usize = 0;
    while i < files.len()
        invariant
            i <= files.len(),
            keys.len() == i,
            forall|k: int|
                0 <= k < i ==> #[trigger] keys@[k] == version_key(
                    files@[k].filename@,
                    files@[k].created,
                ),
        decreases files.len() - i,
    {
        let version = extract_version_from_filename(files[i].filename.as_str());
        keys.push(VersionKey { semver: parse_semver(version.as_str()), created: files[i].created });
        i += 1;
    }
    assert(keys@ =~= version_keys(files@));
    let mut order: Vec<usize> = Vec::new();
    let ghost ks = keys@;
    let mut n: usize = 0;
    assert(order@.map_values(|i: usize| i as int) =~= offer_order(ks, 0));
    while n < keys.len()
        invariant
            n <= keys.len(),
            ks == keys@,
            order.len() == n,
            forall|k: int| 0 <= k < order.len() ==> order@[k] < n,
            order@.map_values(|i: usize| i as int) == offer_order(ks, n as int),
        decreases keys.len() - n,
    {
        let ghost placed_order = offer_order(ks, n as int);
        let ghost placed = Seq::new(placed_order.len(), |k: int| ks[placed_order[k]]);
        let mut p: usize = order.len();
        while p > 0 && before(&keys[n], &keys[order[p - 1]])
            invariant
                p <= order.len(),
                n < keys.len(),
                ks == keys@,
                order.len() == n,
                forall|k: int| 0 <= k < order.len() ==> order@[k] < n,
                placed_order == order@.map_values(|i: usize| i as int),
                placed == Seq::new(placed_order.len(), |k: int| ks[placed_order[k]]),
                offer_position(placed, ks[n as int], p as int) == offer_position(
                    placed,
                    ks[n as int],
                    placed.len() as int,
                ),
            decreases p,
        {
            p -= 1;
        }
        order.insert(p, n);
        assert(order@.map_values(|i: usize| i as int) =~= placed_order.insert(
            p as int,
            n as int,
        ));
        n += 1;
    }
    order
}

/// How a program is offered: its name and the number of its versions.
pub open spec fn spec_app_label(name: Seq<char>, count: nat) -> Seq<char> {
    name + " ("@ + spec_decimal(count) + " version"@ + (if count == 1 {
        Seq::empty()
    } else {
        "s"@
    }) + ")"@
}

/// How the program `name` with `count` versions is offered.
pub fn app_label(name: &str, count: u64) -> (r: String)
    ensures
        r@ == spec_app_label(name@, count as nat),
{
    let mut plural: Vec<char> = Vec::new();
    if count != 1 {
        plural = to_chars("s");
    }
    let mut out = to_chars(name);
    push_str(&mut out, " (");
    push_decimal(&mut out, count);
    push_str(&mut out, " version");
    push_chars(&mut out, &plural);
    push_str(&mut out, ")");
    from_chars(&out)
}

/// How a version is offered: the version in the name of its file, and how
/// long ago the file was made, where that is known.
pub open spec fn spec_version_label(filename: Seq<char>, created: Option<u64>, now: u64) -> Seq<
    char,
> {
    spec_version_from_filename(filename) + " ("@ + (match created {
        Some(at) => "created "@ + spec_format_timestamp(at, now),
        None => "unknown date"@,
    }) + ")"@
}

/// How the version in the file `filename` is offered, at the time `now`.
pub fn version_label(filename: &str, created: Option<u64>, now: u64) -> (r: String)
    requires
        created matches Some(at) ==> at <= now,
    ensures
        r@ == spec_version_label(filename@, created, now),
{
    let mut age: Vec<char>;
    match created {
        Some(at) => {
            age = to_chars("created ");
            push_str(&mut age, format_timestamp(at, now).as_str());
        },
        None => {
            age = to_chars("unknown date");
        },
    }
    let mut out = to_chars(extract_version_from_filename(filename).as_str());
    push_str(&mut out, " (");
    push_chars(&mut out, &age);
    push_str(&mut out, ")");
    from_chars(&out)
}

/// The name of the program in the name of a file `name-version`: what
/// stands before the last hyphen, or the whole where there is none.
pub open spec fn spec_app_name(file_stem: Seq<char>) -> Seq<char> {
    match last_index_of_char(file_stem, '-', file_stem.len() as int) {
        Some(dash) => file_stem.subrange(0, dash),
        None => file_stem,
    }
}

/// The name of the program in the name `file_stem` of a file.
pub fn app_name(file_stem: &str) -> (r: String)
    ensures
        r@ == spec_app_name(file_stem@),
{
    let chars = to_chars(file_stem);
    match rfind_char(&chars, '-') {
        Some(dash) => from_chars(&crate::text::slice(&chars, 0, dash)),
        None => from_chars(&chars),
    }
}

/// The character of a hexadecimal digit.
pub open spec fn hex_char(d: nat) -> char {
    if d == 0 {
        '0'
    } else if d == 1 {
        '1'
    } else if d == 2 {
        '2'
    } else if d == 3 {
        '3'
    } else if d == 4 {
        '4'
    } else if d == 5 {
        '5'
    } else if d == 6 {
        '6'
    } else if d == 7 {
        '7'
    } else if d == 8 {
        '8'
    } else if d == 9 {
        '9'
    } else if d == 10 {
        'a'
    } else if d == 11 {
        'b'
    } else if d == 12 {
        'c'
    } else if d == 13 {
        'd'
    } else if d == 14 {
        'e'
    } else {
        'f'
    }
}

/// The six hexadecimal digits of the lowest 24 bits of a number.
pub open spec fn hex6(n: nat) -> Seq<char> {
    seq![
        hex_char((n / 0x100000) % 16),
        hex_char((n / 0x10000) % 16),
        hex_char((n / 0x1000) % 16),
        hex_char((n / 0x100) % 16),
        hex_char((n / 0x10) % 16),
        hex_char(n % 16),
    ]
}

/// The name of the directory that a template is moved to before another
/// takes its place: `default_backup_` and six hexadecimal digits of `hash`.
pub open spec fn spec_backup_name(hash: u64) -> Seq<char> {
    "default_backup_"@ + hex6((hash % 0x1000000) as nat)
}

/// The character of a hexadecimal digit.
fn hex_of(d: u64) -> (r: char)
    requires
        d < 16,
    ensures
        r == hex_char(d as nat),
{
    if d == 0 {
        '0'
    } else if d == 1 {
        '1'
    } else if d == 2 {
        '2'
    } else if d == 3 {
        '3'
    } else if d == 4 {
        '4'
    } else if d == 5 {
        '5'
    } else if d == 6 {
        '6'
    } else if d == 7 {
        '7'
    } else if d == 8 {
        '8'
    } else if d == 9 {
        '9'
    } else if d == 10 {
        'a'
    } else if d == 11 {
        'b'
    } else if d == 12 {
        'c'
    } else if d == 13 {
        'd'
    } else if d == 14 {
        'e'
    } else {
        'f'
    }
}

/// The name of the directory that a template is moved to before another
/// takes its place.
pub fn backup_name(hash: u64) -> (r: String)
    ensures
        r@ == spec_backup_name(hash),
{
    let n = hash % 0x1000000;
    let digits: Vec<char> = vec![
        hex_of((n / 0x100000) % 16),
        hex_of((n / 0x10000) % 16),
        hex_of((n / 0x1000) % 16),
        hex_of((n / 0x100) % 16),
        hex_of((n / 0x10) % 16),
        hex_of(n % 16),
    ];
    assert(digits@ =~= hex6(n as nat));
    let mut out = to_chars("default_backup_");
    push_chars(&mut out, &digits);
    from_chars(&out)
}

} // verus!
