//! What the dictionary knows of a headword: its stem, inflection pattern,
//! part of speech, meaning, inflection class and the word it inflects like.

use vstd::prelude::*;
use crate::host::{
    PlsInflectionsHost, QueryTables, SqlAnswers, Transliterations, answer_view, answers_one_way,
    host_answered, host_one_way, host_transliterated, lemma_host_answered,
    lemma_host_transliterated, result_view, transliterates_one_way,
};
use crate::outside::{regex_build_error, regex_replace_first, replace_first_regex_match};
use crate::text::{is_blank, text_equals, text_is_blank};

verus! {

/// How a word inflects, which decides the table drawn for it.
#[derive(Debug, Clone, Copy, PartialEq, Eq, Structural)]
pub enum InflectionClass {
    Indeclinable,
    Conjugation,
    Declension,
    DeclensionPron1st,
    DeclensionPron2nd,
    DeclensionPronDual,
}

/// A headword and what the database says of it.
pub struct Pali1Metadata {
    pub pali1: String,
    pub stem: String,
    pub pattern: String,
    pub pos: String,
    pub meaning: String,
    pub inflection_class: InflectionClass,
    pub like: String,
}

/// `Pali1Metadata` with every text taken by its characters.
pub struct Pali1MetadataView {
    pub pali1: Seq<char>,
    pub stem: Seq<char>,
    pub pattern: Seq<char>,
    pub pos: Seq<char>,
    pub meaning: Seq<char>,
    pub inflection_class: InflectionClass,
    pub like: Seq<char>,
}

impl View for Pali1Metadata {
    type V = Pali1MetadataView;

    open spec fn view(&self) -> Pali1MetadataView {
        Pali1MetadataView {
            pali1: self.pali1@,
            stem: self.stem@,
            pattern: self.pattern@,
            pos: self.pos@,
            meaning: self.meaning@,
            inflection_class: self.inflection_class,
            like: self.like@,
        }
    }
}

/// The class the index names: `verb`, `pron1st`, `pron2nd`, `prondual`, and
/// a declension for any other name.
pub open spec fn class_from_name(name: Seq<char>) -> InflectionClass {
    if name == "verb"@ {
        InflectionClass::Conjugation
    } else if name == "pron1st"@ {
        InflectionClass::DeclensionPron1st
    } else if name == "pron2nd"@ {
        InflectionClass::DeclensionPron2nd
    } else if name == "prondual"@ {
        InflectionClass::DeclensionPronDual
    } else {
        InflectionClass::Declension
    }
}

/// The inflection class that an index entry's class name stands for.
pub fn inflection_class_from_str(ic: &str) -> (c: InflectionClass)
    ensures
        c == class_from_name(ic@),
{
    if text_equals(ic, "verb") {
        InflectionClass::Conjugation
    } else if text_equals(ic, "pron1st") {
        InflectionClass::DeclensionPron1st
    } else if text_equals(ic, "pron2nd") {
        InflectionClass::DeclensionPron2nd
    } else if text_equals(ic, "prondual") {
        InflectionClass::DeclensionPronDual
    } else {
        InflectionClass::Declension
    }
}

/// The SQL text that looks a headword up among the stems.
pub open spec fn stems_query_text(pali1: Seq<char>) -> Seq<char> {
    "select stem, pattern, pos, definition from '_stems' where pāli1 = \""@ + pali1 + "\""@
}

/// The SQL text that looks a headword up among the stems.
pub fn stems_query(pali1: &str) -> (sql: String)
    ensures
        sql@ == stems_query_text(pali1@),
{
    let mut sql = String::from_str("select stem, pattern, pos, definition from '_stems' where pāli1 = \"");
    sql.append(pali1);
    sql.append("\"");
    sql
}

/// The SQL text that looks an inflection pattern up in the index.
pub open spec fn index_query_text(pattern: Seq<char>) -> Seq<char> {
    "select inflection_class, like from '_index' where name = \""@ + pattern + "\""@
}

/// The SQL text that looks an inflection pattern up in the index.
pub fn index_query(pattern: &str) -> (sql: String)
    ensures
        sql@ == index_query_text(pattern@),
{
    let mut sql = String::from_str("select inflection_class, like from '_index' where name = \"");
    sql.append(pattern);
    sql.append("\"");
    sql
}

/// The error for a headword the stems do not hold exactly once.
pub open spec fn word_not_found_text(pali1: Seq<char>) -> Seq<char> {
    "Word '"@ + pali1 + "' not found in db."@
}

/// The error for a pattern the index answers with no class and like-word.
pub open spec fn pattern_not_indexed_text(pattern: Seq<char>) -> Seq<char> {
    "Pattern '"@ + pattern + "' not found in index."@
}

/// The metadata of a headword as the stems query gives it, before the index
/// is consulted: it takes one result set of one row of four cells.
pub open spec fn metadata_from_stems(pali1: Seq<char>, results: QueryTables) -> Result<
    Pali1MetadataView,
    Seq<char>,
> {
    if results.len() == 1 && results[0].len() == 1 && results[0][0].len() == 4 {
        let row = results[0][0];
        Ok(
            Pali1MetadataView {
                pali1: pali1,
                stem: if row[0] == "*"@ {
                    Seq::<char>::empty()
                } else {
                    row[0]
                },
                pattern: row[1],
                pos: row[2],
                meaning: row[3],
                inflection_class: InflectionClass::Declension,
                like: Seq::<char>::empty(),
            },
        )
    } else {
        Err(word_not_found_text(pali1))
    }
}

/// Reads the stems query's answer for a headword: one result set holding
/// one row of stem, pattern, part of speech and meaning. A `*` stem is
/// irregular and is kept as the empty stem.
pub fn metadata_from_stems_answer(pali1: &str, results: &Vec<Vec<Vec<String>>>) -> (res: Result<
    Pali1Metadata,
    String,
>)
    ensures
        result_view(res) == metadata_from_stems(pali1@, results.deep_view()),
{
    if results.len() != 1 || results[0].len() != 1 || results[0][0].len() != 4 {
        let mut msg = String::from_str("Word '");
        msg.append(pali1);
        msg.append("' not found in db.");
        return Err(msg);
    }
    let row = &results[0][0];
    assert(row.deep_view() == results.deep_view()[0][0]);
    let stem = if text_equals(row[0].as_str(), "*") {
        String::new()
    } else {
        row[0].clone()
    };
    Ok(
        Pali1Metadata {
            pali1: String::from_str(pali1),
            stem,
            pattern: row[1].clone(),
            pos: row[2].clone(),
            meaning: row[3].clone(),
            inflection_class: InflectionClass::Declension,
            like: String::new(),
        },
    )
}


/// The class name and like-word an index answer gives for a pattern: the
/// first two cells of the first row of the first result set.
pub open spec fn index_entry_of(pattern: Seq<char>, results: QueryTables) -> Result<
    (Seq<char>, Seq<char>),
    Seq<char>,
> {
    if results.len() >= 1 && results[0].len() >= 1 && results[0][0].len() >= 2 {
        Ok((results[0][0][0], results[0][0][1]))
    } else {
        Err(pattern_not_indexed_text(pattern))
    }
}

/// Reads the index answer for a pattern: its class name and the word it
/// inflects like.
pub fn index_entry(pattern: &str, results: &Vec<Vec<Vec<String>>>) -> (res: Result<
    (String, String),
    String,
>)
    ensures
        match res {
            Ok((class_name, like)) => index_entry_of(pattern@, results.deep_view()) == Ok::<
                (Seq<char>, Seq<char>),
                Seq<char>,
            >((class_name@, like@)),
            Err(e) => index_entry_of(pattern@, results.deep_view()) == Err::<
                (Seq<char>, Seq<char>),
                Seq<char>,
            >(e@),
        },
{
    if results.len() >= 1 && results[0].len() >= 1 && results[0][0].len() >= 2 {
        let row = &results[0][0];
        assert(row.deep_view() == results.deep_view()[0][0]);
        Ok((row[0].clone(), row[1].clone()))
    } else {
        let mut msg = String::from_str("Pattern '");
        msg.append(pattern);
        msg.append("' not found in index.");
        Err(msg)
    }
}

/// The regular expression for the homonym number that ends some headwords:
/// a space and digits at the end.
pub open spec fn homonym_number_pattern() -> Seq<char> {
    seq![' ', '\\', 'd', '+', '$']
}

/// The headword with its trailing homonym number removed, as the regex
/// crate computes it; the regex crate's message when it refuses the pattern.
pub open spec fn indeclinable_stem_of(pali1: Seq<char>) -> Result<Seq<char>, Seq<char>> {
    match regex_build_error(homonym_number_pattern()) {
        None => Ok(regex_replace_first(homonym_number_pattern(), pali1, Seq::<char>::empty())),
        Some(e) => Err(e),
    }
}

/// Removes the homonym number (` 1`, ` 23`) that ends a headword.
pub fn get_stem_for_indeclinable(pali1: &str) -> (res: Result<String, String>)
    ensures
        result_view(res) == indeclinable_stem_of(pali1@),
{
    let pattern = " \\d+$";
    let nothing = "";
    proof {
        reveal_strlit(" \\d+$");
        reveal_strlit("");
        assert(pattern@ =~= homonym_number_pattern());
        assert(nothing@ =~= Seq::<char>::empty());
    }
    replace_first_regex_match(pattern, pali1, nothing)
}

/// The metadata once the index (for a word with a pattern) or the homonym
/// number (for an indeclinable) has been consulted: `db` answers the index
/// query and `tr` transliterates the like-word.
pub open spec fn complete_metadata(
    pm: Pali1MetadataView,
    db: SqlAnswers,
    tr: Transliterations,
) -> Result<Pali1MetadataView, Seq<char>> {
    if !is_blank(pm.pattern) {
        match db(index_query_text(pm.pattern)) {
            Err(e) => Err(e),
            Ok(tables) => match index_entry_of(pm.pattern, tables) {
                Err(e) => Err(e),
                Ok((class_name, like)) => if like.len() == 0 {
                    Ok(
                        Pali1MetadataView {
                            pali1: pm.pali1,
                            stem: pm.stem,
                            pattern: pm.pattern,
                            pos: pm.pos,
                            meaning: pm.meaning,
                            inflection_class: class_from_name(class_name),
                            like: "irreg"@,
                        },
                    )
                } else {
                    match tr(like) {
                        Err(e) => Err(e),
                        Ok(t) => Ok(
                            Pali1MetadataView {
                                pali1: pm.pali1,
                                stem: pm.stem,
                                pattern: pm.pattern,
                                pos: pm.pos,
                                meaning: pm.meaning,
                                inflection_class: class_from_name(class_name),
                                like: "like "@ + t,
                            },
                        ),
                    }
                },
            },
        }
    } else if pm.stem == "-"@ {
        match indeclinable_stem_of(pm.pali1) {
            Err(e) => Err(e),
            Ok(s) => Ok(
                Pali1MetadataView {
                    pali1: s,
                    stem: pm.stem,
                    pattern: pm.pattern,
                    pos: pm.pos,
                    meaning: pm.meaning,
                    inflection_class: InflectionClass::Indeclinable,
                    like: "indeclinable"@,
                },
            ),
        }
    } else {
        Ok(pm)
    }
}

/// The metadata of a headword when `db` answers the stems query and the
/// index query and `tr` transliterates the like-word (each used only where
/// it is asked for).
pub open spec fn pali1_metadata_outcome(
    pali1: Seq<char>,
    db: SqlAnswers,
    tr: Transliterations,
) -> Result<Pali1MetadataView, Seq<char>> {
    match db(stems_query_text(pali1)) {
        Err(e) => Err(e),
        Ok(tables) => match metadata_from_stems(pali1, tables) {
            Err(e) => Err(e),
            Ok(pm) => complete_metadata(pm, db, tr),
        },
    }
}

/// What a lookup with answers `db` and transliterations `tr` took from the
/// host, for a pattern: `db`'s answer to the pattern's index query is the
/// host's answer to it, and, where that answer names a like-word, `tr`'s
/// transliteration of it is the host's.
pub open spec fn index_asked<'a, H: PlsInflectionsHost<'a> + ?Sized>(
    host: &H,
    pattern: Seq<char>,
    db: SqlAnswers,
    tr: Transliterations,
) -> bool {
    &&& host_answered(host, index_query_text(pattern), db(index_query_text(pattern)))
    &&& match db(index_query_text(pattern)) {
        Ok(tables) => match index_entry_of(pattern, tables) {
            Ok((_, like)) => like.len() > 0 ==> host_transliterated(host, like, tr(like)),
            Err(_) => true,
        },
        Err(_) => true,
    }
}

/// What a lookup of `pali1` with answers `db` and transliterations `tr`
/// took from the host: `db`'s answer to the stems query is the host's
/// answer to it, and, for a word with a pattern, what `index_asked` says.
pub open spec fn metadata_asked<'a, H: PlsInflectionsHost<'a> + ?Sized>(
    host: &H,
    pali1: Seq<char>,
    db: SqlAnswers,
    tr: Transliterations,
) -> bool {
    &&& host_answered(host, stems_query_text(pali1), db(stems_query_text(pali1)))
    &&& match db(stems_query_text(pali1)) {
        Ok(tables) => match metadata_from_stems(pali1, tables) {
            Ok(pm) => !is_blank(pm.pattern) ==> index_asked(host, pm.pattern, db, tr),
            Err(_) => true,
        },
        Err(_) => true,
    }
}

/// `md` is what looking `pali1` up gives when the host is asked: the lookup's
/// outcome for some answers `db` and transliterations `tr` that are, where
/// the lookup reads them, the host's (`metadata_asked`).
pub open spec fn metadata_from_host<'a, H: PlsInflectionsHost<'a> + ?Sized>(
    host: &H,
    pali1: Seq<char>,
    md: Result<Pali1MetadataView, Seq<char>>,
) -> bool {
    exists|db: SqlAnswers, tr: Transliterations|
        md == #[trigger] pali1_metadata_outcome(pali1, db, tr) && metadata_asked(host, pali1, db, tr)
}

/// Two lookups of `pali1` that read the host's answers agree when the host
/// answers and transliterates one way.
pub proof fn lemma_lookups_agree<'a, H: PlsInflectionsHost<'a> + ?Sized>(
    host: &H,
    pali1: Seq<char>,
    db1: SqlAnswers,
    tr1: Transliterations,
    db2: SqlAnswers,
    tr2: Transliterations,
)
    requires
        host_one_way(host),
        metadata_asked(host, pali1, db1, tr1),
        metadata_asked(host, pali1, db2, tr2),
    ensures
        pali1_metadata_outcome(pali1, db1, tr1) == pali1_metadata_outcome(pali1, db2, tr2),
{
    let qs = stems_query_text(pali1);
    assert(answers_one_way(host, qs));
    assert(db1(qs) == db2(qs));
    if let Ok(tables) = db1(qs) {
        if let Ok(pm) = metadata_from_stems(pali1, tables) {
            if !is_blank(pm.pattern) {
                let qi = index_query_text(pm.pattern);
                assert(answers_one_way(host, qi));
                assert(db1(qi) == db2(qi));
                if let Ok(t) = db1(qi) {
                    if let Ok((c, like)) = index_entry_of(pm.pattern, t) {
                        if like.len() > 0 {
                            assert(transliterates_one_way(host, like));
                            assert(tr1(like) == tr2(like));
                        }
                    }
                }
            }
        }
    }
}

/// Looking a headword up twice gives the same result when the host answers
/// and transliterates one way.
pub proof fn lemma_lookup_repeats<'a, H: PlsInflectionsHost<'a> + ?Sized>(
    host: &H,
    pali1: Seq<char>,
    md1: Result<Pali1MetadataView, Seq<char>>,
    md2: Result<Pali1MetadataView, Seq<char>>,
)
    requires
        host_one_way(host),
        metadata_from_host(host, pali1, md1),
        metadata_from_host(host, pali1, md2),
    ensures
        md1 == md2,
{
    let (db1, tr1) = choose|db: SqlAnswers, tr: Transliterations|
        md1 == #[trigger] pali1_metadata_outcome(pali1, db, tr) && metadata_asked(host, pali1, db, tr);
    let (db2, tr2) = choose|db: SqlAnswers, tr: Transliterations|
        md2 == #[trigger] pali1_metadata_outcome(pali1, db, tr) && metadata_asked(host, pali1, db, tr);
    lemma_lookups_agree(host, pali1, db1, tr1, db2, tr2);
}

/// The stems query and the index query are never the same text.
pub proof fn lemma_stems_and_index_queries_differ(pali1: Seq<char>, pattern: Seq<char>)
    ensures
        stems_query_text(pali1) != index_query_text(pattern),
{
    reveal_strlit("select stem, pattern, pos, definition from '_stems' where pāli1 = \"");
    reveal_strlit("select inflection_class, like from '_index' where name = \"");
    assert(stems_query_text(pali1)[7] == 's');
    assert(index_query_text(pattern)[7] == 'i');
}

/// Looks a headword up: asks the host for its stem row (`stems_query`), then,
/// when it has a pattern, for the pattern's index entry (`index_query`) and
/// the transliteration of its like-word; an indeclinable (stem `-`, no
/// pattern) loses its homonym number.
pub fn get_pali1_metadata<'a, H: PlsInflectionsHost<'a> + ?Sized>(pali1: &str, host: &H) -> (res:
    Result<Pali1Metadata, String>)
    ensures
        metadata_from_host(host, pali1@, result_view(res)),
{
    let ghost no_tr: Transliterations = |s: Seq<char>| Err::<Seq<char>, Seq<char>>(Seq::<char>::empty());
    let sql = stems_query(pali1);
    let q1 = sql.as_str();
    let answer = host.exec_sql_query(q1);
    let ghost stems = answer_view(answer);
    let ghost db1: SqlAnswers = |q: Seq<char>| stems;
    proof {
        lemma_host_answered(host, q1, answer);
        assert(db1(stems_query_text(pali1@)) == stems);
    }
    let results = match answer {
        Ok(r) => r,
        Err(e) => {
            assert(result_view::<Pali1Metadata>(Err(e)) == pali1_metadata_outcome(
                pali1@,
                db1,
                no_tr,
            ));
            return Err(e);
        },
    };
    let mut pm = match metadata_from_stems_answer(pali1, &results) {
        Ok(pm) => pm,
        Err(e) => {
            assert(result_view::<Pali1Metadata>(Err(e)) == pali1_metadata_outcome(
                pali1@,
                db1,
                no_tr,
            ));
            return Err(e);
        },
    };
    let ghost pm0 = pm@;
    proof {
        reveal_strlit("irreg");
        reveal_strlit("indeclinable");
        reveal_strlit("like ");
        reveal_strlit("-");
    }
    if !text_is_blank(pm.pattern.as_str()) {
        let sql2 = index_query(pm.pattern.as_str());
        let q2 = sql2.as_str();
        let answer2 = host.exec_sql_query(q2);
        proof {
            lemma_host_answered(host, q2, answer2);
        }
        let ghost index = answer_view(answer2);
        let ghost stems_text = stems_query_text(pali1@);
        let ghost db2: SqlAnswers = |q: Seq<char>| if q == stems_text {
            stems
        } else {
            index
        };
        proof {
            lemma_stems_and_index_queries_differ(pali1@, pm0.pattern);
            assert(db2(stems_text) == stems);
            assert(db2(index_query_text(pm0.pattern)) == index);
        }
        let results2 = match answer2 {
            Ok(r) => r,
            Err(e) => {
                assert(result_view::<Pali1Metadata>(Err(e)) == pali1_metadata_outcome(
                    pali1@,
                    db2,
                    no_tr,
                ));
                return Err(e);
            },
        };
        let (class_name, like) = match index_entry(pm.pattern.as_str(), &results2) {
            Ok(entry) => entry,
            Err(e) => {
                assert(result_view::<Pali1Metadata>(Err(e)) == pali1_metadata_outcome(
                    pali1@,
                    db2,
                    no_tr,
                ));
                return Err(e);
            },
        };
        pm.inflection_class = inflection_class_from_str(class_name.as_str());
        if like.unicode_len() == 0 {
            pm.like = String::from_str("irreg");
            assert(result_view::<Pali1Metadata>(Ok(pm)) == pali1_metadata_outcome(
                pali1@,
                db2,
                no_tr,
            ));
        } else {
            let like_str = like.as_str();
            let translit = host.transliterate(like_str);
            let ghost like_t = result_view(translit);
            let ghost tr2: Transliterations = |s: Seq<char>| like_t;
            assert(tr2(like@) == like_t);
            proof {
                lemma_host_transliterated(host, like_str, translit);
            }
            match translit {
                Ok(t) => {
                    let mut l = String::from_str("like ");
                    l.append(t.as_str());
                    pm.like = l;
                    assert(result_view::<Pali1Metadata>(Ok(pm)) == pali1_metadata_outcome(
                        pali1@,
                        db2,
                        tr2,
                    ));
                },
                Err(e) => {
                    assert(result_view::<Pali1Metadata>(Err(e)) == pali1_metadata_outcome(
                        pali1@,
                        db2,
                        tr2,
                    ));
                    return Err(e);
                },
            }
        }
    } else if text_equals(pm.stem.as_str(), "-") {
        match get_stem_for_indeclinable(pm.pali1.as_str()) {
            Ok(s) => {
                pm.pali1 = s;
                pm.inflection_class = InflectionClass::Indeclinable;
                pm.like = String::from_str("indeclinable");
                assert(result_view::<Pali1Metadata>(Ok(pm)) == pali1_metadata_outcome(
                    pali1@,
                    db1,
                    no_tr,
                ));
            },
            Err(e) => {
                assert(result_view::<Pali1Metadata>(Err(e)) == pali1_metadata_outcome(
                    pali1@,
                    db1,
                    no_tr,
                ));
                return Err(e);
            },
        }
    } else {
        assert(result_view::<Pali1Metadata>(Ok(pm)) == pali1_metadata_outcome(
            pali1@,
            db1,
            no_tr,
        ));
    }
    Ok(pm)
}


/// No index class name makes a word indeclinable: any name the index does
/// not know reads as a declension.
pub proof fn lemma_index_never_names_indeclinable(name: Seq<char>)
    ensures
        class_from_name(name) != InflectionClass::Indeclinable,
{
}

/// Whatever a host answers, a looked-up headword is indeclinable exactly
/// when it has no pattern and its stem is `-`; its stem is never `*` (an
/// irregular stem is kept empty); and it keeps the headword as given unless
/// it is indeclinable, when it loses its homonym number.
pub proof fn lemma_metadata_outcome_shape(
    pali1: Seq<char>,
    db: SqlAnswers,
    tr: Transliterations,
    pm: Pali1MetadataView,
)
    requires
        pali1_metadata_outcome(pali1, db, tr) == Ok::<
            Pali1MetadataView,
            Seq<char>,
        >(pm),
    ensures
        pm.inflection_class == InflectionClass::Indeclinable <==> (is_blank(pm.pattern) && pm.stem
            == "-"@),
        pm.stem != "*"@,
        pm.inflection_class != InflectionClass::Indeclinable ==> pm.pali1 == pali1,
        pm.inflection_class == InflectionClass::Indeclinable ==> indeclinable_stem_of(pali1) == Ok::<Seq<char>, Seq<char>>(
            pm.pali1,
        ),
{
    reveal_strlit("*");
    reveal_strlit("-");
    let tables = db(stems_query_text(pali1))->Ok_0;
    let pm0 = metadata_from_stems(pali1, tables)->Ok_0;
    if is_blank(pm0.pattern) {
    } else {
        let entry = index_entry_of(pm0.pattern, db(index_query_text(pm0.pattern))->Ok_0)->Ok_0;
        lemma_index_never_names_indeclinable(entry.0);
    }
    assert(pm0.stem.len() == 0 || pm0.stem != "*"@);
}

/// A successful lookup keeps what the stems row says: some answer the host
/// gave to the stems query is one result set of one row of four cells, and
/// the looked-up pattern, part of speech and meaning are its second, third
/// and fourth cells, and the stem its first (empty for `*`), whichever kind
/// of word it is.
pub proof fn lemma_lookup_keeps_stems_row<'a, H: PlsInflectionsHost<'a> + ?Sized>(
    host: &H,
    pali1: Seq<char>,
    pm: Pali1MetadataView,
)
    requires
        metadata_from_host(host, pali1, Ok::<Pali1MetadataView, Seq<char>>(pm)),
    ensures
        exists|tables: QueryTables|
            #[trigger] host_answered(
                host,
                stems_query_text(pali1),
                Ok::<QueryTables, Seq<char>>(tables),
            ) && tables.len() == 1 && tables[0].len() == 1 && tables[0][0].len() == 4
                && pm.stem == (if tables[0][0][0] == "*"@ {
                Seq::<char>::empty()
            } else {
                tables[0][0][0]
            }) && pm.pattern == tables[0][0][1] && pm.pos == tables[0][0][2] && pm.meaning
                == tables[0][0][3],
{
    let (db, tr) = choose|db: SqlAnswers, tr: Transliterations|
        Ok::<Pali1MetadataView, Seq<char>>(pm) == #[trigger] pali1_metadata_outcome(pali1, db, tr)
            && metadata_asked(host, pali1, db, tr);
    let tables = db(stems_query_text(pali1))->Ok_0;
    assert(host_answered(host, stems_query_text(pali1), Ok::<QueryTables, Seq<char>>(tables)));
}

/// A successful lookup of a word with a pattern takes its class from the
/// index: some answer the host gave to the pattern's index query has a first
/// row whose first cell names the class; an empty like-word (second cell)
/// makes the word `irreg`, and any other is shown as `like` followed by the
/// host's transliteration of it.
pub proof fn lemma_lookup_takes_class_from_index<'a, H: PlsInflectionsHost<'a> + ?Sized>(
    host: &H,
    pali1: Seq<char>,
    pm: Pali1MetadataView,
)
    requires
        metadata_from_host(host, pali1, Ok::<Pali1MetadataView, Seq<char>>(pm)),
        !is_blank(pm.pattern),
    ensures
        pm.pali1 == pali1,
        exists|tables: QueryTables|
            #[trigger] host_answered(
                host,
                index_query_text(pm.pattern),
                Ok::<QueryTables, Seq<char>>(tables),
            ) && tables.len() >= 1 && tables[0].len() >= 1 && tables[0][0].len() >= 2
                && pm.inflection_class == class_from_name(tables[0][0][0]) && (tables[0][0][1].len()
                == 0 ==> pm.like == "irreg"@) && (tables[0][0][1].len() > 0 ==> exists|
                t: Seq<char>,
            |
                #[trigger] host_transliterated(
                    host,
                    tables[0][0][1],
                    Ok::<Seq<char>, Seq<char>>(t),
                ) && pm.like == "like "@ + t),
{
    let (db, tr) = choose|db: SqlAnswers, tr: Transliterations|
        Ok::<Pali1MetadataView, Seq<char>>(pm) == #[trigger] pali1_metadata_outcome(pali1, db, tr)
            && metadata_asked(host, pali1, db, tr);
    let stems = db(stems_query_text(pali1))->Ok_0;
    let pm0 = metadata_from_stems(pali1, stems)->Ok_0;
    assert(pm0.pattern == pm.pattern);
    let tables = db(index_query_text(pm.pattern))->Ok_0;
    assert(host_answered(host, index_query_text(pm.pattern), Ok::<QueryTables, Seq<char>>(tables)));
    let like = tables[0][0][1];
    if like.len() > 0 {
        let t = tr(like)->Ok_0;
        assert(host_transliterated(host, like, Ok::<Seq<char>, Seq<char>>(t)));
    }
}

/// A successful lookup of a word without a pattern: with stem `-` it is an
/// indeclinable, shown as `indeclinable`, whose headword loses the homonym
/// number that the regex ` \d+$` finds; with any other stem it is a
/// declension with no like-word and the headword as given.
pub proof fn lemma_lookup_without_pattern<'a, H: PlsInflectionsHost<'a> + ?Sized>(
    host: &H,
    pali1: Seq<char>,
    pm: Pali1MetadataView,
)
    requires
        metadata_from_host(host, pali1, Ok::<Pali1MetadataView, Seq<char>>(pm)),
        is_blank(pm.pattern),
    ensures
        pm.stem == "-"@ ==> pm.inflection_class == InflectionClass::Indeclinable && pm.like
            == "indeclinable"@ && regex_build_error(seq![' ', '\\', 'd', '+', '$']) is None
            && pm.pali1 == regex_replace_first(
            seq![' ', '\\', 'd', '+', '$'],
            pali1,
            Seq::<char>::empty(),
        ),
        pm.stem != "-"@ ==> pm.inflection_class == InflectionClass::Declension && pm.like
            == Seq::<char>::empty() && pm.pali1 == pali1,
{
    let (db, tr) = choose|db: SqlAnswers, tr: Transliterations|
        Ok::<Pali1MetadataView, Seq<char>>(pm) == #[trigger] pali1_metadata_outcome(pali1, db, tr)
            && metadata_asked(host, pali1, db, tr);
    let stems = db(stems_query_text(pali1))->Ok_0;
    let pm0 = metadata_from_stems(pali1, stems)->Ok_0;
    assert(pm0.pattern == pm.pattern);
    assert(pm0.stem == pm.stem);
}

/// A failed lookup fails with what went wrong first: the host's error for the
/// stems query; the "not found in db" message for a stems answer that is not
/// one row of four cells; for a word with a pattern, the host's error for
/// the index query, the "not found in index" message for an index answer
/// without a first row of two cells, or the host's error transliterating the
/// like-word; and for an indeclinable, the regex crate's message.
pub proof fn lemma_lookup_errors<'a, H: PlsInflectionsHost<'a> + ?Sized>(
    host: &H,
    pali1: Seq<char>,
    e: Seq<char>,
)
    requires
        metadata_from_host(host, pali1, Err::<Pali1MetadataView, Seq<char>>(e)),
    ensures
        host_answered(host, stems_query_text(pali1), Err::<QueryTables, Seq<char>>(e)) || exists|
            t: QueryTables,
        |
            #[trigger] host_answered(
                host,
                stems_query_text(pali1),
                Ok::<QueryTables, Seq<char>>(t),
            ) && (!(t.len() == 1 && t[0].len() == 1 && t[0][0].len() == 4) && e == "Word '"@
                + pali1 + "' not found in db."@ || t.len() == 1 && t[0].len() == 1 && t[0][0].len()
                == 4 && (!is_blank(t[0][0][1]) && (host_answered(
                host,
                index_query_text(t[0][0][1]),
                Err::<QueryTables, Seq<char>>(e),
            ) || exists|t2: QueryTables|
                #[trigger] host_answered(
                    host,
                    index_query_text(t[0][0][1]),
                    Ok::<QueryTables, Seq<char>>(t2),
                ) && (!(t2.len() >= 1 && t2[0].len() >= 1 && t2[0][0].len() >= 2) && e
                    == "Pattern '"@ + t[0][0][1] + "' not found in index."@ || t2.len() >= 1
                    && t2[0].len() >= 1 && t2[0][0].len() >= 2 && t2[0][0][1].len() > 0
                    && host_transliterated(host, t2[0][0][1], Err::<Seq<char>, Seq<char>>(e))))
                || is_blank(t[0][0][1]) && t[0][0][0] == "-"@ && regex_build_error(
                seq![' ', '\\', 'd', '+', '$'],
            ) == Some(e))),
{
    let (db, tr) = choose|db: SqlAnswers, tr: Transliterations|
        Err::<Pali1MetadataView, Seq<char>>(e) == #[trigger] pali1_metadata_outcome(pali1, db, tr)
            && metadata_asked(host, pali1, db, tr);
    reveal_strlit("-");
    reveal_strlit("*");
    if let Ok(t) = db(stems_query_text(pali1)) {
        assert(host_answered(host, stems_query_text(pali1), Ok::<QueryTables, Seq<char>>(t)));
        if t.len() == 1 && t[0].len() == 1 && t[0][0].len() == 4 {
            let pm0 = metadata_from_stems(pali1, t)->Ok_0;
            assert(pm0.pattern == t[0][0][1]);
            if !is_blank(pm0.pattern) {
                if let Ok(t2) = db(index_query_text(pm0.pattern)) {
                    assert(host_answered(
                        host,
                        index_query_text(pm0.pattern),
                        Ok::<QueryTables, Seq<char>>(t2),
                    ));
                }
            } else {
                assert(pm0.stem == "-"@ ==> t[0][0][0] == "-"@);
                assert(homonym_number_pattern() =~= seq![' ', '\\', 'd', '+', '$']);
            }
        }
    }
}

/// The index's class names: `verb` is a conjugation, `pron1st`, `pron2nd`
/// and `prondual` the three pronoun declensions, and every other name a
/// declension.
pub proof fn lemma_class_names(name: Seq<char>)
    ensures
        class_from_name(name) == InflectionClass::Conjugation <==> name == "verb"@,
        class_from_name(name) == InflectionClass::DeclensionPron1st <==> name == "pron1st"@,
        class_from_name(name) == InflectionClass::DeclensionPron2nd <==> name == "pron2nd"@,
        class_from_name(name) == InflectionClass::DeclensionPronDual <==> name == "prondual"@,
        class_from_name(name) == InflectionClass::Declension <==> (name != "verb"@ && name
            != "pron1st"@ && name != "pron2nd"@ && name != "prondual"@),
{
    reveal_strlit("verb");
    reveal_strlit("pron1st");
    reveal_strlit("pron2nd");
    reveal_strlit("prondual");
    assert("pron1st"@[0] != "verb"@[0]);
    assert("pron2nd"@[0] != "verb"@[0]);
    assert("prondual"@[0] != "verb"@[0]);
    assert("pron2nd"@[4] != "pron1st"@[4]);
    assert("prondual"@.len() != "pron1st"@.len());
    assert("prondual"@.len() != "pron2nd"@.len());
}

} // verus!
