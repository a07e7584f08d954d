//! The services a host program lends the library: locale and version facts,
//! transliteration, and SQL queries on the inflection database.

use vstd::prelude::*;

verus! {

/// The rows of every result set that an SQL text produced, each cell by its characters.
pub type QueryTables = Seq<Seq<Seq<Seq<char>>>>;

/// Answers to SQL texts, each by the text asked. A contract that reads
/// answers from such a function ties each answer it reads to what the host
/// returned for that text (`host_answered`); nothing here claims that a host
/// answers the same text the same way twice.
pub type SqlAnswers = spec_fn(Seq<char>) -> Result<QueryTables, Seq<char>>;

/// Transliterations, each by the text given; tied to the host's answers by
/// `host_transliterated` where they are read.
pub type Transliterations = spec_fn(Seq<char>) -> Result<Seq<char>, Seq<char>>;

/// The view of a `Result` whose error is a `String`.
pub open spec fn result_view<T: View>(r: Result<T, String>) -> Result<T::V, Seq<char>> {
    match r {
        Ok(t) => Ok(t@),
        Err(e) => Err(e@),
    }
}

/// The view of an SQL answer: every result set, row and cell.
pub open spec fn answer_view(r: Result<Vec<Vec<Vec<String>>>, String>) -> Result<
    QueryTables,
    Seq<char>,
> {
    match r {
        Ok(t) => Ok(t.deep_view()),
        Err(e) => Err(e@),
    }
}

/// Decodes the JSON text a host's database returns for a query: an array of
/// result sets, each an array of rows, each an array of string cells; a text
/// that does not decode gives serde_json's message for it.
pub fn decode_query_result(text: &str) -> (res: Result<Vec<Vec<Vec<String>>>, String>)
    ensures
        answer_view(res) == crate::outside::json_string_tables(text@),
{
    crate::outside::decode_json_string_tables(text)
}

/// `r` is what the host returned when asked to run an SQL text that reads `sql`.
pub open spec fn host_gave<'a, H: PlsInflectionsHost<'a> + ?Sized>(
    host: &H,
    sql: Seq<char>,
    r: Result<Vec<Vec<Vec<String>>>, String>,
) -> bool {
    exists|q: &str| q@ == sql && #[trigger] call_ensures(H::exec_sql_query, (host, q), r)
}

/// `answer` is, cell by cell, what the host returned when asked to run an
/// SQL text that reads `sql`.
pub open spec fn host_answered<'a, H: PlsInflectionsHost<'a> + ?Sized>(
    host: &H,
    sql: Seq<char>,
    answer: Result<QueryTables, Seq<char>>,
) -> bool {
    exists|r: Result<Vec<Vec<Vec<String>>>, String>|
        #[trigger] host_gave(host, sql, r) && answer_view(r) == answer
}

/// `t` is, by its characters, what the host returned when asked to
/// transliterate a text that reads `text`.
pub open spec fn host_transliterated<'a, H: PlsInflectionsHost<'a> + ?Sized>(
    host: &H,
    text: Seq<char>,
    t: Result<Seq<char>, Seq<char>>,
) -> bool {
    exists|s: &str, r: Result<String, String>|
        s@ == text && #[trigger] call_ensures(H::transliterate, (host, s), r) && result_view(r) == t
}

/// `locale` is, by its characters, what the host returned when asked its locale.
pub open spec fn host_locale<'a, H: PlsInflectionsHost<'a> + ?Sized>(
    host: &H,
    locale: Seq<char>,
) -> bool {
    exists|l: &'a str| l@ == locale && #[trigger] call_ensures(H::get_locale, (host,), l)
}

/// `url` is, by its characters, what the host returned when asked its URL.
pub open spec fn host_url<'a, H: PlsInflectionsHost<'a> + ?Sized>(host: &H, url: Seq<char>) -> bool {
    exists|u: &'a str| u@ == url && #[trigger] call_ensures(H::get_url, (host,), u)
}

/// `version` is, by its characters, what the host returned when asked its version.
pub open spec fn host_version<'a, H: PlsInflectionsHost<'a> + ?Sized>(
    host: &H,
    version: Seq<char>,
) -> bool {
    exists|v: &'a str| v@ == version && #[trigger] call_ensures(H::get_version, (host,), v)
}

/// The host answers `sql` one way: any two answers it returned for it are
/// the same.
pub open spec fn answers_one_way<'a, H: PlsInflectionsHost<'a> + ?Sized>(
    host: &H,
    sql: Seq<char>,
) -> bool {
    forall|a1: Result<QueryTables, Seq<char>>, a2: Result<QueryTables, Seq<char>>|
        #[trigger] host_answered(host, sql, a1) && #[trigger] host_answered(host, sql, a2) ==> a1
            == a2
}

/// The host transliterates `text` one way: any two transliterations it
/// returned for it are the same.
pub open spec fn transliterates_one_way<'a, H: PlsInflectionsHost<'a> + ?Sized>(
    host: &H,
    text: Seq<char>,
) -> bool {
    forall|t1: Result<Seq<char>, Seq<char>>, t2: Result<Seq<char>, Seq<char>>|
        #[trigger] host_transliterated(host, text, t1) && #[trigger] host_transliterated(
            host,
            text,
            t2,
        ) ==> t1 == t2
}

/// The host answers every SQL text and transliterates every text one way,
/// and gives one URL and one version.
pub open spec fn host_one_way<'a, H: PlsInflectionsHost<'a> + ?Sized>(host: &H) -> bool {
    &&& forall|sql: Seq<char>| #[trigger] answers_one_way(host, sql)
    &&& forall|text: Seq<char>| #[trigger] transliterates_one_way(host, text)
    &&& forall|u1: Seq<char>, u2: Seq<char>|
        #[trigger] host_url(host, u1) && #[trigger] host_url(host, u2) ==> u1 == u2
    &&& forall|v1: Seq<char>, v2: Seq<char>|
        #[trigger] host_version(host, v1) && #[trigger] host_version(host, v2) ==> v1 == v2
}

/// The host's answer to `sql` from one call, when the call was made with `q`.
pub proof fn lemma_host_answered<'a, H: PlsInflectionsHost<'a> + ?Sized>(
    host: &H,
    q: &str,
    r: Result<Vec<Vec<Vec<String>>>, String>,
)
    requires
        call_ensures(H::exec_sql_query, (host, q), r),
    ensures
        host_gave(host, q@, r),
        host_answered(host, q@, answer_view(r)),
{
    assert(host_gave(host, q@, r));
}

/// The host's transliteration of `s` from one call.
pub proof fn lemma_host_transliterated<'a, H: PlsInflectionsHost<'a> + ?Sized>(
    host: &H,
    s: &str,
    r: Result<String, String>,
)
    requires
        call_ensures(H::transliterate, (host, s), r),
    ensures
        host_transliterated(host, s@, result_view(r)),
{
}

/// Whether `res` is what becomes of a host's raw answer `core` to a query:
/// the host's error as it stands, or the JSON decoding of its text, with
/// serde_json's message where the text does not decode.
pub open spec fn decodes_core_answer(
    core: Result<String, String>,
    res: Result<Vec<Vec<Vec<String>>>, String>,
) -> bool {
    match core {
        Err(e) => res == Err::<Vec<Vec<Vec<String>>>, String>(e),
        Ok(text) => answer_view(res) == crate::outside::json_string_tables(text@),
    }
}

/// What the library asks of the program that embeds it. Nothing is assumed
/// of the answers: every function that calls a host states which texts it
/// hands the host and what it makes of whatever the host returned for them
/// (`host_answered`, `host_transliterated`, `host_locale`, `host_url`,
/// `host_version`).
pub trait PlsInflectionsHost<'a> {
    /// The locale abbreviations are shown in (`"en"`, `"xx"`, a column name).
    fn get_locale(&self) -> &'a str;

    /// The host's version, shown in generated tables.
    fn get_version(&self) -> &'a str;

    /// The host's URL, shown in generated tables.
    fn get_url(&self) -> &'a str;

    /// Transliterates Pāli text into the host's script.
    fn transliterate(&self, s: &str) -> Result<String, String>;

    /// Runs an SQL text on the inflection database; the answer is JSON.
    fn exec_sql_query_core(&self, sql: &str) -> Result<String, String>;

    /// Runs an SQL text and decodes its JSON answer.
    fn exec_sql_query(&self, sql: &str) -> (res: Result<Vec<Vec<Vec<String>>>, String>)
        default_ensures
            exists|core: Result<String, String>|
                #[trigger] call_ensures(Self::exec_sql_query_core, (self, sql), core)
                    && decodes_core_answer(core, res),
    {
        match self.exec_sql_query_core(sql) {
            Ok(text) => decode_query_result(&text),
            Err(e) => Err(e),
        }
    }

    /// Reports something odd that does not stop the work.
    fn log_warning(&self, msg: &str);
}

} // verus!
