//! The federated side of the core: connection-URL decomposition, the JDBC
//! data-source derivation handed to the external rewriter, the plan list the
//! rewriter answers with, and the registry of named in-memory tables that
//! the local recombination step reads.

use vstd::prelude::*;
use crate::destination::ResultHandle;
use crate::errors::{CxError, ErrKind};
use crate::strutil::{
    dec_digits, find_char, lemma_prefix_before_take, prefix_before, push_decimal, replace_all,
    replace_spec, str_eq,
};

verus! {

/// What the URL parser extracts from one connection string, as plain
/// values. The logic below reads only these parts.
#[derive(Debug)]
pub struct ParsedUrl {
    pub scheme: String,
    pub host: Option<String>,
    pub port: Option<u16>,
    pub path: String,
    pub username: String,
    pub password: Option<String>,
}

/// The decomposition of a well-formed URL — scheme, host, port, path,
/// username, password — or nothing when the string is malformed; fixed by
/// the external parser as a function of the string alone.
pub uninterp spec fn url_parts_of(s: Seq<char>) -> Option<
    (Seq<char>, Option<Seq<char>>, Option<u16>, Seq<char>, Seq<char>, Option<Seq<char>>),
>;

pub open spec fn url_has_parts(
    u: ParsedUrl,
    t: (Seq<char>, Option<Seq<char>>, Option<u16>, Seq<char>, Seq<char>, Option<Seq<char>>),
) -> bool {
    &&& u.scheme@ == t.0
    &&& (match (u.host, t.1) {
        (Some(h), Some(hv)) => h@ == hv,
        (None, None) => true,
        _ => false,
    })
    &&& u.port == t.2
    &&& u.path@ == t.3
    &&& u.username@ == t.4
    &&& (match (u.password, t.5) {
        (Some(p), Some(pv)) => p@ == pv,
        (None, None) => true,
        _ => false,
    })
}

/// Relies on url::Url::parse and its component accessors (scheme, host_str,
/// port, path, username, password): a connection string is either rejected
/// as malformed or decomposed into its parts, which depend on the string
/// alone.
#[verifier::external_body]
pub(crate) fn parse_url_raw(s: &str) -> (r: Result<ParsedUrl, CxError>)
    ensures
        match url_parts_of(s@) {
            Some(t) => r matches Ok(u) && url_has_parts(u, t),
            None => r matches Err(e) && e.kind() == ErrKind::Parse,
        },
{
    match url::Url::parse(s) {
        Ok(u) => Ok(ParsedUrl {
            scheme: u.scheme().to_string(),
            host: u.host_str().map(|h| h.to_string()),
            port: u.port(),
            path: u.path().to_string(),
            username: u.username().to_string(),
            password: u.password().map(|p| p.to_string()),
        }),
        Err(e) => Err(CxError::ParseError(e.to_string())),
    }
}

/// Parses every alias → connection-URL pair handed to a federated run; the
/// first malformed URL fails the whole map, before any plan runs.
pub fn parse_db_map(db_map: &Vec<(String, String)>) -> (r: Result<
    Vec<(String, ParsedUrl)>,
    CxError,
>)
    ensures
        match r {
            Ok(m) => {
                &&& m@.len() == db_map@.len()
                &&& forall|i: int|
                    0 <= i < m@.len() ==> (#[trigger] m@[i]).0@ == db_map@[i].0@ && (
                    url_parts_of(db_map@[i].1@) matches Some(t) && url_has_parts(m@[i].1, t))
            },
            Err(e) => e.kind() == ErrKind::Parse && exists|i: int|
                0 <= i < db_map@.len() && url_parts_of((#[trigger] db_map@[i]).1@) is None,
        },
{
    let mut m: Vec<(String, ParsedUrl)> = Vec::new();
    let mut i: usize = 0;
    while i < db_map.len()
        invariant
            0 <= i <= db_map@.len(),
            m@.len() == i,
            forall|j: int|
                0 <= j < i ==> (#[trigger] m@[j]).0@ == db_map@[j].0@ && (url_parts_of(
                    db_map@[j].1@,
                ) matches Some(t) && url_has_parts(m@[j].1, t)),
        decreases db_map@.len() - i,
    {
        let entry = &db_map[i];
        match parse_url_raw(entry.1.as_str()) {
            Ok(u) => {
                m.push((entry.0.clone(), u));
            },
            Err(e) => {
                return Err(e);
            },
        }
        i += 1;
    }
    Ok(m)
}

/// The first map entry whose alias equals `name`.
pub fn lookup_url<'a>(map: &'a Vec<(String, ParsedUrl)>, name: &str) -> (r: Option<&'a ParsedUrl>)
    ensures
        match r {
            Some(u) => exists|i: int|
                0 <= i < map@.len() && (#[trigger] map@[i]).0@ == name@ && *u == map@[i].1,
            None => forall|i: int| 0 <= i < map@.len() ==> (#[trigger] map@[i]).0@ != name@,
        },
{
    let mut i: usize = 0;
    while i < map.len()
        invariant
            0 <= i <= map@.len(),
            forall|j: int| 0 <= j < i ==> (#[trigger] map@[j]).0@ != name@,
        decreases map@.len() - i,
    {
        if str_eq(map[i].0.as_str(), name) {
            return Some(&map[i].1);
        }
        i += 1;
    }
    None
}

/// The scheme family: the scheme up to its first `+`, so a protocol variant
/// such as a binary flavour picks the same database family.
fn scheme_family<'a>(s: &'a str) -> (r: &'a str)
    ensures
        r@ == prefix_before(s@, '+'),
{
    match find_char(s, '+') {
        Some(i) => {
            let fam = s.substring_char(0, i);
            proof {
                lemma_prefix_before_take(s@, '+', i as int);
                assert(fam@ =~= s@.take(i as int));
            }
            fam
        },
        None => {
            let n = s.unicode_len();
            proof {
                lemma_prefix_before_take(s@, '+', s@.len() as int);
                assert(s@.take(s@.len() as int) =~= s@);
            }
            s
        },
    }
}

pub open spec fn is_postgres_family(fam: Seq<char>) -> bool {
    fam == "postgres"@ || fam == "postgresql"@
}

pub open spec fn is_mysql_family(fam: Seq<char>) -> bool {
    fam == "mysql"@
}

pub open spec fn host_or_default(u: ParsedUrl) -> Seq<char> {
    match u.host {
        Some(h) => h@,
        None => "localhost"@,
    }
}

pub open spec fn port_or_default(u: ParsedUrl, d: u16) -> u16 {
    match u.port {
        Some(p) => p,
        None => d,
    }
}

pub open spec fn password_or_empty(u: ParsedUrl) -> Seq<char> {
    match u.password {
        Some(p) => p@,
        None => Seq::empty(),
    }
}

/// The JDBC connection URL for one family prefix and parsed URL.
pub open spec fn jdbc_url_spec(prefix: Seq<char>, u: ParsedUrl, default_port: u16) -> Seq<char> {
    prefix + host_or_default(u) + ":"@ + dec_digits(port_or_default(u, default_port) as nat)
        + u.path@
}

/// One JDBC data source handed to the external rewriter for a registered
/// database.
#[derive(Debug)]
pub struct JdbcDataSource {
    pub jdbc_url: String,
    pub driver: String,
    pub username: String,
    pub password: String,
}

/// Derives the JDBC data source of one parsed connection URL: the postgres
/// family maps to the postgres driver with default port 5432, the mysql
/// family to the mysql driver with default port 3306; any other family is
/// refused.
pub fn jdbc_data_source(u: &ParsedUrl) -> (r: Result<JdbcDataSource, CxError>)
    ensures
        ({
            let fam = prefix_before(u.scheme@, '+');
            &&& (r is Ok <==> (is_postgres_family(fam) || is_mysql_family(fam)))
            &&& (r matches Ok(d) ==> {
                &&& d.jdbc_url@ == (if is_postgres_family(fam) {
                    jdbc_url_spec("jdbc:postgresql://"@, *u, 5432)
                } else {
                    jdbc_url_spec("jdbc:mysql://"@, *u, 3306)
                })
                &&& d.driver@ == (if is_postgres_family(fam) {
                    "org.postgresql.Driver"@
                } else {
                    "com.mysql.cj.jdbc.Driver"@
                })
                &&& d.username@ == u.username@
                &&& d.password@ == password_or_empty(*u)
            })
            &&& (r matches Err(e) ==> e.kind() == ErrKind::Other)
        }),
{
    let fam = scheme_family(u.scheme.as_str());
    let pg = str_eq(fam, "postgres") || str_eq(fam, "postgresql");
    let my = str_eq(fam, "mysql");
    if !(pg || my) {
        return Err(CxError::Other(String::from_str("unsupported connection scheme")));
    }
    let mut jurl = if pg {
        String::from_str("jdbc:postgresql://")
    } else {
        String::from_str("jdbc:mysql://")
    };
    match &u.host {
        Some(h) => jurl.append(h.as_str()),
        None => jurl.append("localhost"),
    }
    jurl.append(":");
    let port: u16 = match u.port {
        Some(p) => p,
        None => if pg {
            5432
        } else {
            3306
        },
    };
    push_decimal(&mut jurl, port as u64);
    jurl.append(u.path.as_str());
    let driver = if pg {
        String::from_str("org.postgresql.Driver")
    } else {
        String::from_str("com.mysql.cj.jdbc.Driver")
    };
    let username = u.username.clone();
    let password = match &u.password {
        Some(p) => p.clone(),
        None => String::new(),
    };
    let d = JdbcDataSource { jdbc_url: jurl, driver, username, password };
    proof {
        if pg {
            assert(d.jdbc_url@ =~= jdbc_url_spec("jdbc:postgresql://"@, *u, 5432));
        } else {
            assert(d.jdbc_url@ =~= jdbc_url_spec("jdbc:mysql://"@, *u, 3306));
        }
    }
    Ok(d)
}

/// One per-database plan from the federated rewriter: the physical database
/// it runs on, the alias its result is registered under, and its query.
#[derive(Debug)]
pub struct Plan {
    pub db_name: String,
    pub db_alias: String,
    pub sql: String,
}

pub fn clone_plan(p: &Plan) -> (r: Plan)
    ensures
        r == *p,
{
    Plan { db_name: p.db_name.clone(), db_alias: p.db_alias.clone(), sql: p.sql.clone() }
}

/// Whether a plan is the local recombination step rather than a remote run.
pub open spec fn is_local(p: Plan) -> bool {
    p.db_name@ == "LOCAL"@
}

pub open spec fn is_remote(p: Plan) -> bool {
    !is_local(p)
}

/// The remote plans, in their order.
pub open spec fn remote_plans(plans: Seq<Plan>) -> Seq<Plan>
    decreases plans.len(),
{
    if plans.len() == 0 {
        Seq::empty()
    } else if is_remote(plans.last()) {
        remote_plans(plans.drop_last()).push(plans.last())
    } else {
        remote_plans(plans.drop_last())
    }
}

/// The query of the last local plan in the list, if any.
pub open spec fn last_local_sql(plans: Seq<Plan>) -> Option<String>
    decreases plans.len(),
{
    if plans.len() == 0 {
        None
    } else if is_local(plans.last()) {
        Some(plans.last().sql)
    } else {
        last_local_sql(plans.drop_last())
    }
}

/// Splits a plan list into the remote plans, in their order, and the final
/// local recombination query; each remote plan becomes an independent
/// dispatcher run registered under its alias, and the local query runs last
/// against those registered tables.
pub fn split_plans(plans: &Vec<Plan>) -> (r: (Vec<Plan>, Option<String>))
    ensures
        r.0@ == remote_plans(plans@),
        r.1 == last_local_sql(plans@),
{
    let mut remote: Vec<Plan> = Vec::new();
    let mut local: Option<String> = None;
    let mut i: usize = 0;
    proof {
        assert(plans@.take(0) =~= Seq::<Plan>::empty());
    }
    while i < plans.len()
        invariant
            0 <= i <= plans@.len(),
            remote@ == remote_plans(plans@.take(i as int)),
            local == last_local_sql(plans@.take(i as int)),
        decreases plans@.len() - i,
    {
        let p = &plans[i];
        proof {
            assert(plans@.take(i as int + 1).drop_last() =~= plans@.take(i as int));
            assert(plans@.take(i as int + 1).last() == plans@[i as int]);
        }
        if str_eq(p.db_name.as_str(), "LOCAL") {
            local = Some(p.sql.clone());
        } else {
            remote.push(clone_plan(p));
        }
        i += 1;
    }
    proof {
        assert(plans@.take(plans@.len() as int) =~= plans@);
    }
    (remote, local)
}

/// The views of a list of strings.
pub open spec fn strs_view(v: Seq<String>) -> Seq<Seq<char>> {
    v.map_values(|a: String| a@)
}

/// An alias wrapped in double quotes, as the rewriter spells registered
/// tables in the local query.
pub open spec fn quoted(a: Seq<char>) -> Seq<char> {
    seq!['"'] + a + seq!['"']
}

/// The local query after stripping the quoting of every alias, alias by
/// alias, in order.
pub open spec fn unquote_aliases_spec(sql: Seq<char>, aliases: Seq<Seq<char>>) -> Seq<char>
    decreases aliases.len(),
{
    if aliases.len() == 0 {
        sql
    } else {
        unquote_aliases_spec(
            replace_spec(sql, quoted(aliases[0]), aliases[0]),
            aliases.drop_first(),
        )
    }
}

/// Strips the rewriter's quoting of registered table aliases from the local
/// recombination query: every `"alias"` becomes `alias`.
pub fn unquote_aliases(sql: &str, aliases: &Vec<String>) -> (r: String)
    ensures
        r@ == unquote_aliases_spec(sql@, strs_view(aliases@)),
{
    let mut acc = String::from_str(sql);
    proof {
        assert(strs_view(aliases@).skip(0) =~= strs_view(aliases@));
    }
    let mut i: usize = 0;
    while i < aliases.len()
        invariant
            0 <= i <= aliases@.len(),
            unquote_aliases_spec(sql@, strs_view(aliases@)) == unquote_aliases_spec(
                acc@,
                strs_view(aliases@).skip(i as int),
            ),
        decreases aliases@.len() - i,
    {
        let alias = &aliases[i];
        let pat = String::from_str("\"").concat(alias.as_str()).concat("\"");
        proof {
            reveal_strlit("\"");
            assert(pat@ =~= quoted(alias@));
            assert(strs_view(aliases@).skip(i as int)[0] == alias@);
            assert(strs_view(aliases@).skip(i as int).drop_first() =~= strs_view(aliases@).skip(
                i as int + 1,
            ));
        }
        acc = replace_all(acc.as_str(), pat.as_str(), alias.as_str());
        i += 1;
    }
    proof {
        assert(strs_view(aliases@).skip(aliases@.len() as int) =~= Seq::<Seq<char>>::empty());
    }
    acc
}

/// The named in-memory tables of one federated run: each remote plan's
/// finished result, registered under its alias for the local recombination
/// step.
#[derive(Debug)]
pub struct FedRegistry {
    pub tables: Vec<(String, ResultHandle)>,
}

impl FedRegistry {
    pub fn new() -> (r: FedRegistry)
        ensures
            r.tables@.len() == 0,
    {
        FedRegistry { tables: Vec::new() }
    }

    /// Registers one finished result under its alias.
    pub fn register(&mut self, alias: String, handle: ResultHandle)
        ensures
            final(self).tables@ == old(self).tables@.push((alias, handle)),
    {
        self.tables.push((alias, handle));
    }

    /// The first registered table under `alias`, if any.
    pub fn lookup<'a>(&'a self, alias: &str) -> (r: Option<&'a ResultHandle>)
        ensures
            match r {
                Some(h) => exists|i: int|
                    0 <= i < self.tables@.len() && (#[trigger] self.tables@[i]).0@ == alias@ && *h
                        == self.tables@[i].1,
                None => forall|i: int|
                    0 <= i < self.tables@.len() ==> (#[trigger] self.tables@[i]).0@ != alias@,
            },
    {
        let mut i: usize = 0;
        while i < self.tables.len()
            invariant
                0 <= i <= self.tables@.len(),
                forall|j: int| 0 <= j < i ==> (#[trigger] self.tables@[j]).0@ != alias@,
            decreases self.tables@.len() - i,
        {
            if str_eq(self.tables[i].0.as_str(), alias) {
                return Some(&self.tables[i].1);
            }
            i += 1;
        }
        None
    }
}

/// The JVM base path and rewriter-bundle path a federated run will try: a
/// caller-supplied base and the environment override win over the packaged
/// defaults. Whether the chosen path exists on disk is the caller's I/O; a
/// missing bundle is reported as a file-not-found error before any
/// connection is attempted.
pub fn resolve_rewriter_paths(j4rs_base: Option<String>, env_rewriter_path: Option<String>) -> (r:
    (String, String))
    ensures
        r.0@ == (match j4rs_base {
            Some(b) => b@,
            None => "../target/release/jassets"@,
        }),
        r.1@ == (match env_rewriter_path {
            Some(p) => p@,
            None => "../target/release/jassets/federated-rewriter.jar"@,
        }),
{
    let base = match j4rs_base {
        Some(b) => b,
        None => String::from_str("../target/release/jassets"),
    };
    let jar = match env_rewriter_path {
        Some(p) => p,
        None => String::from_str("../target/release/jassets/federated-rewriter.jar"),
    };
    (base, jar)
}

} // verus!
