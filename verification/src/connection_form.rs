//! Connection profile form: how the dialog's text fields become the values
//! of a connection profile, and the icon shown for each engine.

use vstd::prelude::*;
use crate::cell_edit::{all_digits, digits_value, is_digit, lemma_digits_monotone};
use crate::error_dialog::{ConnectionErrorInfo, DatabaseType};
use crate::text::{append_str, chars_eq, chars_of, string_from_chars, string_of, trim, trim_chars};

verus! {

/// The text after an optional leading `+`.
pub open spec fn plus_stripped(s: Seq<char>) -> Seq<char> {
    if s.len() > 0 && s[0] == '+' {
        s.drop_first()
    } else {
        s
    }
}

/// `u16::from_str`: an optional `+` sign followed by one or more ASCII
/// digits, whose value is at most 65535.
pub open spec fn parse_u16(s: Seq<char>) -> Option<u16> {
    let d = plus_stripped(s);
    if d.len() == 0 || !all_digits(d) {
        None
    } else if digits_value(d) <= 65535 {
        Some(digits_value(d) as u16)
    } else {
        None
    }
}

/// `u16::from_str` on the characters.
pub fn parse_u16_chars(s: &Vec<char>) -> (res: Option<u16>)
    ensures
        res == parse_u16(s@),
{
    let n = s.len();
    let start: usize = if n > 0 && s[0] == '+' {
        1
    } else {
        0
    };
    let ghost d = plus_stripped(s@);
    proof {
        assert(d =~= s@.subrange(start as int, n as int));
    }
    if start == n {
        return None;
    }
    let mut acc: u32 = 0;
    let mut i: usize = start;
    proof {
        assert(d.take(0) =~= Seq::<char>::empty());
    }
    while i < n
        invariant
            n == s.len(),
            start <= i <= n,
            start <= 1,
            d == s@.subrange(start as int, n as int),
            d == plus_stripped(s@),
            d.len() == n - start,
            forall|j: int| 0 <= j < i - start ==> is_digit(#[trigger] d[j]),
            acc == digits_value(d.take(i - start)),
            acc <= 65535,
        decreases n - i,
    {
        let u = s[i] as u32;
        assert(d[i - start] == s@[i as int]);
        if u < 0x30 || u > 0x39 {
            assert(!is_digit(d[i - start]));
            assert(!all_digits(d));
            return None;
        }
        proof {
            assert(d.take(i - start + 1).drop_last() =~= d.take(i - start));
        }
        acc = acc * 10 + (u - 0x30);
        i += 1;
        if acc > 65535 {
            proof {
                if all_digits(d) {
                    lemma_digits_monotone(d, i - start);
                }
            }
            return None;
        }
    }
    proof {
        assert(d.take(n - start) =~= d);
    }
    Some(acc as u16)
}

/// The port of a profile: the trimmed port field if it is a valid port
/// number, else the engine's default port.
pub fn dialog_port(port_input: &str, default_port: u16) -> (res: u16)
    ensures
        res == match parse_u16(trim(port_input@)) {
            Some(p) => p,
            None => default_port,
        },
{
    let cs = chars_of(port_input);
    let t = trim_chars(&cs);
    match parse_u16_chars(&t) {
        Some(p) => p,
        None => default_port,
    }
}

/// The name of a profile: the name field, or `New <engine>` when it is blank.
pub fn dialog_name(name_input: &str, engine_display_name: &str) -> (res: String)
    ensures
        trim(name_input@).len() == 0 ==> res@ == "New "@ + engine_display_name@,
        trim(name_input@).len() > 0 ==> res@ == name_input@,
{
    let cs = chars_of(name_input);
    if trim_chars(&cs).len() == 0 {
        let mut s = string_of("New ");
        append_str(&mut s, engine_display_name);
        s
    } else {
        string_from_chars(&cs)
    }
}

/// The database file of an SQLite profile: the path field, or the
/// in-memory database `:memory:` when it is blank.
pub fn dialog_sqlite_path(path_input: &str) -> (res: String)
    ensures
        trim(path_input@).len() == 0 ==> res@ == ":memory:"@,
        trim(path_input@).len() > 0 ==> res@ == path_input@,
{
    let cs = chars_of(path_input);
    if trim_chars(&cs).len() == 0 {
        string_of(":memory:")
    } else {
        string_from_chars(&cs)
    }
}

/// The password of a profile: none when the field is empty (a field of
/// spaces is kept as a password).
pub fn dialog_password(pass_input: &str) -> (res: Option<String>)
    ensures
        pass_input@.len() == 0 ==> res is None,
        pass_input@.len() > 0 ==> (res matches Some(p) && p@ == pass_input@),
{
    let cs = chars_of(pass_input);
    if cs.len() == 0 {
        None
    } else {
        Some(string_from_chars(&cs))
    }
}

/// Name given to a duplicated profile.
pub fn duplicate_profile_name(name: &str) -> (res: String)
    ensures
        res@ == name@ + " (Copy)"@,
{
    let mut s = string_of(name);
    append_str(&mut s, " (Copy)");
    s
}

/// Name of the database a fresh connection works in: the one the server
/// reports, else the profile's database when it is not empty.
pub fn connected_database_name(reported: Option<&str>, configured: &str) -> (res: Option<String>)
    ensures
        match reported {
            Some(r) => res matches Some(n) && n@ == r@,
            None => if configured@.len() == 0 {
                res is None
            } else {
                res matches Some(n) && n@ == configured@
            },
        },
{
    match reported {
        Some(r) => Some(string_of(r)),
        None => {
            let cs = chars_of(configured);
            if cs.len() == 0 {
                None
            } else {
                Some(string_from_chars(&cs))
            }
        },
    }
}


/// The profile connected to at start-up: the last one used, when it is
/// still among the saved profiles.
pub fn startup_connection(saved_ids: &[String], last: Option<&str>) -> (res: Option<String>)
    ensures
        match last {
            Some(l) => if (exists|i: int|
                0 <= i < saved_ids@.len() && (#[trigger] saved_ids@[i])@ == l@) {
                res matches Some(r) && r@ == l@
            } else {
                res is None
            },
            None => res is None,
        },
{
    match last {
        None => None,
        Some(l) => {
            let mut i: usize = 0;
            while i < saved_ids.len()
                invariant
                    last == Some(l),
                    i <= saved_ids@.len(),
                    forall|j: int| 0 <= j < i ==> (#[trigger] saved_ids@[j])@ != l@,
                decreases saved_ids.len() - i,
            {
                let cs = chars_of(saved_ids[i].as_str());
                if chars_eq(&cs, l) {
                    assert(saved_ids@[i as int]@ == l@);
                    return Some(string_of(l));
                }
                i += 1;
            }
            None
        },
    }
}

// ---------------------------------------------------------------------------
// Connecting to a profile
// ---------------------------------------------------------------------------

/// The text `a`, then `b`, then `c`.
fn concat3(a: &str, b: &str, c: &str) -> (res: String)
    ensures
        res@ == a@ + b@ + c@,
{
    let mut s = string_of(a);
    append_str(&mut s, b);
    append_str(&mut s, c);
    s
}

/// Status line while connecting to the profile `name`.
pub fn connecting_status(name: &str) -> (res: String)
    ensures
        res@ == "Connecting to "@ + name@ + "..."@,
{
    concat3("Connecting to ", name, "...")
}

/// Status line once connected to the profile `name`.
pub fn connected_status(name: &str) -> (res: String)
    ensures
        res@ == "Connected to "@ + name@,
{
    let mut s = string_of("Connected to ");
    append_str(&mut s, name);
    s
}

/// A connection attempt to a profile failed with `err`: the status line and
/// the error dialog's description of the attempt (the profile's identity,
/// engine and address, and the error text).
pub fn connection_failure(
    connection_id: &str,
    connection_name: &str,
    database_type: DatabaseType,
    host: &str,
    port: u16,
    database: &str,
    err: &str,
) -> (res: (String, ConnectionErrorInfo))
    ensures
        res.0@ == "Connection error: "@ + err@,
        res.1.connection_id@ == connection_id@,
        res.1.connection_name@ == connection_name@,
        res.1.database_type == database_type,
        res.1.host@ == host@,
        res.1.port == port,
        res.1.database@ == database@,
        res.1.error_message@ == err@,
{
    let info = ConnectionErrorInfo {
        connection_id: string_of(connection_id),
        connection_name: string_of(connection_name),
        database_type,
        host: string_of(host),
        port,
        database: string_of(database),
        error_message: string_of(err),
    };
    let mut status = string_of("Connection error: ");
    append_str(&mut status, err);
    (status, info)
}

// ---------------------------------------------------------------------------
// Engine icons
// ---------------------------------------------------------------------------

/// Icon shown beside an engine in the connection list and dialog.
#[derive(Debug, Clone, Copy, PartialEq, Eq, Structural)]
pub enum EngineIcon {
    Database,
    Fish,
    Atom,
    Anchor,
    Sparkles,
    Boxes,
    Compass,
    Shield,
    Warehouse,
    Infinity,
    Gem,
    Zap,
    Search,
    Cloud,
    Layers,
    Orbit,
    Clock,
    Flame,
    Globe,
    Feather,
    Crown,
    Cpu,
    TreePine,
    Gauge,
    HardDrive,
    Blocks,
    Lock,
    Server,
    Building,
    Workflow,
    DatabaseZap,
}

/// The icon of each engine.
pub open spec fn icon_of(t: DatabaseType) -> EngineIcon {
    match t {
        DatabaseType::Sqlite => EngineIcon::Database,
        DatabaseType::Mysql => EngineIcon::Fish,
        DatabaseType::MariaDB => EngineIcon::Fish,
        DatabaseType::TiDB => EngineIcon::Atom,
        DatabaseType::OceanBase => EngineIcon::Anchor,
        DatabaseType::StarRocks => EngineIcon::Sparkles,
        DatabaseType::Doris => EngineIcon::Boxes,
        DatabaseType::PolarDB => EngineIcon::Compass,
        DatabaseType::TDSQL => EngineIcon::Shield,
        DatabaseType::SelectDB => EngineIcon::Warehouse,
        DatabaseType::Databend => EngineIcon::Infinity,
        DatabaseType::GoldenDB => EngineIcon::Gem,
        DatabaseType::SingleStore => EngineIcon::Zap,
        DatabaseType::ManticoreSearch => EngineIcon::Search,
        DatabaseType::CloudSQLMySQL => EngineIcon::Cloud,
        DatabaseType::Postgres => EngineIcon::Layers,
        DatabaseType::CockroachDB => EngineIcon::Orbit,
        DatabaseType::TimescaleDB => EngineIcon::Clock,
        DatabaseType::Redshift => EngineIcon::Flame,
        DatabaseType::YugabyteDB => EngineIcon::Globe,
        DatabaseType::OpenGauss => EngineIcon::Feather,
        DatabaseType::Kingbase => EngineIcon::Crown,
        DatabaseType::GaussDB => EngineIcon::Cpu,
        DatabaseType::Greenplum => EngineIcon::TreePine,
        DatabaseType::QuestDB => EngineIcon::Gauge,
        DatabaseType::Vastbase => EngineIcon::HardDrive,
        DatabaseType::YashanDB => EngineIcon::Blocks,
        DatabaseType::HighGo => EngineIcon::Feather,
        DatabaseType::UXDB => EngineIcon::Lock,
        DatabaseType::GBase8c => EngineIcon::Server,
        DatabaseType::EnterpriseDB => EngineIcon::Building,
        DatabaseType::CrateDB => EngineIcon::Boxes,
        DatabaseType::Materialize => EngineIcon::Workflow,
        DatabaseType::AlloyDB => EngineIcon::DatabaseZap,
        DatabaseType::CloudSQLPG => EngineIcon::Cloud,
        DatabaseType::FujitsuPG => EngineIcon::Building,
    }
}

/// The icon shown for an engine.
pub fn database_icon(db_type: DatabaseType) -> (res: EngineIcon)
    ensures
        res == icon_of(db_type),
{
    match db_type {
        DatabaseType::Sqlite => EngineIcon::Database,
        DatabaseType::Mysql => EngineIcon::Fish,
        DatabaseType::MariaDB => EngineIcon::Fish,
        DatabaseType::TiDB => EngineIcon::Atom,
        DatabaseType::OceanBase => EngineIcon::Anchor,
        DatabaseType::StarRocks => EngineIcon::Sparkles,
        DatabaseType::Doris => EngineIcon::Boxes,
        DatabaseType::PolarDB => EngineIcon::Compass,
        DatabaseType::TDSQL => EngineIcon::Shield,
        DatabaseType::SelectDB => EngineIcon::Warehouse,
        DatabaseType::Databend => EngineIcon::Infinity,
        DatabaseType::GoldenDB => EngineIcon::Gem,
        DatabaseType::SingleStore => EngineIcon::Zap,
        DatabaseType::ManticoreSearch => EngineIcon::Search,
        DatabaseType::CloudSQLMySQL => EngineIcon::Cloud,
        DatabaseType::Postgres => EngineIcon::Layers,
        DatabaseType::CockroachDB => EngineIcon::Orbit,
        DatabaseType::TimescaleDB => EngineIcon::Clock,
        DatabaseType::Redshift => EngineIcon::Flame,
        DatabaseType::YugabyteDB => EngineIcon::Globe,
        DatabaseType::OpenGauss => EngineIcon::Feather,
        DatabaseType::Kingbase => EngineIcon::Crown,
        DatabaseType::GaussDB => EngineIcon::Cpu,
        DatabaseType::Greenplum => EngineIcon::TreePine,
        DatabaseType::QuestDB => EngineIcon::Gauge,
        DatabaseType::Vastbase => EngineIcon::HardDrive,
        DatabaseType::YashanDB => EngineIcon::Blocks,
        DatabaseType::HighGo => EngineIcon::Feather,
        DatabaseType::UXDB => EngineIcon::Lock,
        DatabaseType::GBase8c => EngineIcon::Server,
        DatabaseType::EnterpriseDB => EngineIcon::Building,
        DatabaseType::CrateDB => EngineIcon::Boxes,
        DatabaseType::Materialize => EngineIcon::Workflow,
        DatabaseType::AlloyDB => EngineIcon::DatabaseZap,
        DatabaseType::CloudSQLPG => EngineIcon::Cloud,
        DatabaseType::FujitsuPG => EngineIcon::Building,
    }
}

} // verus!
