use pls_core::abbreviations::{get_abbreviations_for_locale, localise_abbrev, AbbreviationMap};
use pls_core::generators::{create_html_body, TableGenerator};
use pls_core::host::{decode_query_result, PlsInflectionsHost};
use pls_core::inflections::{
    generate_all_inflections, get_all_inflections_for_indeclinables,
    get_all_inflections_for_irregulars, get_all_inflections_for_regulars, get_inflections,
    join_and_transliterate_if_not_empty, query_has_no_results,
};
use pls_core::metadata::{get_pali1_metadata, InflectionClass, Pali1Metadata};
use pls_core::output::{inflection_table_view_model, output_view_model};

struct Host<'a> {
    locale: &'a str,
    answers: Vec<(&'a str, &'a str)>,
    transliteration_fails: bool,
}

impl<'a> PlsInflectionsHost<'a> for Host<'a> {
    fn get_locale(&self) -> &'a str {
        self.locale
    }

    fn get_version(&self) -> &'a str {
        "v0.1"
    }

    fn get_url(&self) -> &'a str {
        "test case"
    }

    fn transliterate(&self, s: &str) -> Result<String, String> {
        if self.transliteration_fails {
            Err(format!("cannot transliterate {}", s))
        } else {
            Ok(format!("^{}$", s))
        }
    }

    fn exec_sql_query_core(&self, sql: &str) -> Result<String, String> {
        for (q, a) in &self.answers {
            if *q == sql {
                return Ok(a.to_string());
            }
        }
        Err(format!("no such table: {}", sql))
    }

    fn log_warning(&self, _msg: &str) {}
}

const ABABA_STEMS: &str =
    r#"select stem, pattern, pos, definition from '_stems' where pāli1 = "ababa 1""#;
const ABABA_INDEX: &str =
    r#"select inflection_class, like from '_index' where name = "a masc""#;

fn dictionary<'a>() -> Host<'a> {
    Host {
        locale: "en",
        answers: vec![
            (ABABA_STEMS, r#"[[["abab","a masc","masc","a kind of plant"]]]"#),
            (ABABA_INDEX, r#"[[["declension","buddha"]]]"#),
            (
                "Select * from a_masc",
                r#"[[["x","y"]],[["nom sg","o"],["acc sg","aṃ,a"]]]"#,
            ),
            (
                r#"select stem, pattern, pos, definition from '_stems' where pāli1 = "ahesuṃ""#,
                r#"[[["*","ahosi aor","aor","were"]]]"#,
            ),
            (
                r#"select inflection_class, like from '_index' where name = "ahosi aor""#,
                r#"[[["verb",""]]]"#,
            ),
            ("Select * from ahosi_aor", r#"[[["3rd pl","ahesuṃ,ahuṃ"]]]"#),
            (
                r#"select stem, pattern, pos, definition from '_stems' where pāli1 = "a 1""#,
                r#"[[["-","","ind","not"]]]"#,
            ),
            (
                r#"select stem, pattern, pos, definition from '_stems' where pāli1 = "maṃ""#,
                r#"[[["ma","ma pron","pron","me"]]]"#,
            ),
            (
                r#"select inflection_class, like from '_index' where name = "ma pron""#,
                r#"[]"#,
            ),
            (
                "select name, description, name from _abbreviations",
                r#"[[["pl","plural","pl"],["sg","singular","sg"]]]"#,
            ),
            (
                "select name, description, '^' || name || '$' from _abbreviations",
                r#"[[["pl","plural","^pl$"]]]"#,
            ),
            ("select count(*) from x", r#"[[["0"]]]"#),
            ("select count(*) from y", r#"[[["12"]]]"#),
            ("select forms", r#"[[["a,,b"]]]"#),
        ],
        transliteration_fails: false,
    }
}

#[test]
fn metadata_of_a_regular_word() {
    let pm = get_pali1_metadata("ababa 1", &dictionary()).unwrap();
    assert_eq!(pm.pali1, "ababa 1");
    assert_eq!(pm.stem, "abab");
    assert_eq!(pm.pattern, "a masc");
    assert_eq!(pm.pos, "masc");
    assert_eq!(pm.meaning, "a kind of plant");
    assert!(matches!(pm.inflection_class, InflectionClass::Declension));
    assert_eq!(pm.like, "like ^buddha$");
}

#[test]
fn metadata_of_an_irregular_word() {
    let pm = get_pali1_metadata("ahesuṃ", &dictionary()).unwrap();
    assert_eq!(pm.stem, "");
    assert!(matches!(pm.inflection_class, InflectionClass::Conjugation));
    assert_eq!(pm.like, "irreg");
}

#[test]
fn metadata_of_an_indeclinable() {
    let pm = get_pali1_metadata("a 1", &dictionary()).unwrap();
    assert_eq!(pm.pali1, "a");
    assert_eq!(pm.stem, "-");
    assert!(matches!(pm.inflection_class, InflectionClass::Indeclinable));
    assert_eq!(pm.like, "indeclinable");
}

#[test]
fn metadata_of_a_missing_word() {
    let err = get_pali1_metadata("xyz", &dictionary()).err().unwrap();
    assert_eq!(
        err,
        r#"no such table: select stem, pattern, pos, definition from '_stems' where pāli1 = "xyz""#
    );
    let host = Host {
        locale: "en",
        answers: vec![(
            r#"select stem, pattern, pos, definition from '_stems' where pāli1 = "xyz""#,
            "[[]]",
        )],
        transliteration_fails: false,
    };
    assert_eq!(
        get_pali1_metadata("xyz", &host).err().unwrap(),
        "Word 'xyz' not found in db."
    );
}

#[test]
fn metadata_of_a_pattern_missing_from_the_index() {
    assert_eq!(
        get_pali1_metadata("maṃ", &dictionary()).err().unwrap(),
        "Pattern 'ma pron' not found in index."
    );
}

#[test]
fn metadata_when_transliteration_fails() {
    let mut host = dictionary();
    host.transliteration_fails = true;
    assert_eq!(
        get_pali1_metadata("ababa 1", &host).err().unwrap(),
        "cannot transliterate buddha"
    );
}

#[test]
fn all_inflections_of_a_regular_word() {
    let forms = generate_all_inflections("ababa 1", &dictionary()).unwrap();
    assert_eq!(forms, vec!["ababo", "ababaṃ", "ababa"]);
}

#[test]
fn all_inflections_of_an_irregular_word() {
    let forms = generate_all_inflections("ahesuṃ", &dictionary()).unwrap();
    assert_eq!(forms, vec!["ahesuṃ", "ahuṃ"]);
}

#[test]
fn all_inflections_of_an_indeclinable() {
    let forms = generate_all_inflections("a 1", &dictionary()).unwrap();
    assert_eq!(forms, vec!["a"]);
}

#[test]
fn all_inflections_of_a_missing_word() {
    assert!(generate_all_inflections("xyz", &dictionary()).is_err());
}

#[test]
fn regulars_and_irregulars_read_the_last_result_set() {
    let host = dictionary();
    assert_eq!(
        get_all_inflections_for_regulars("dev", "a_masc", &host).unwrap(),
        vec!["devo", "devaṃ", "deva"]
    );
    assert_eq!(
        get_all_inflections_for_irregulars("a_masc", &host).unwrap(),
        vec!["o", "aṃ", "a"]
    );
    assert_eq!(
        get_all_inflections_for_regulars("dev", "nowhere", &host).err().unwrap(),
        "no such table: Select * from nowhere"
    );
}

#[test]
fn empty_suffix_tables_have_no_pattern() {
    let host = Host {
        locale: "en",
        answers: vec![("Select * from p", "[]"), ("Select * from q", "[[[]]]")],
        transliteration_fails: false,
    };
    assert_eq!(
        get_all_inflections_for_irregulars("p", &host).err().unwrap(),
        "No pattern found for p"
    );
    assert_eq!(
        get_all_inflections_for_regulars("s", "q", &host).err().unwrap(),
        "No pattern found for q"
    );
}

#[test]
fn indeclinable_forms() {
    assert_eq!(get_all_inflections_for_indeclinables("kāmaṃ 3").unwrap(), vec!["kāmaṃ"]);
}

#[test]
fn abbreviations_in_english() {
    let map = get_abbreviations_for_locale(&dictionary()).unwrap();
    assert_eq!(map.get("pl").unwrap(), "pl");
    assert_eq!(map.get("plural").unwrap(), "pl");
    assert_eq!(map.get("singular").unwrap(), "sg");
    assert!(map.get("du").is_none());
    assert_eq!(map.entries().len(), 4);
}

#[test]
fn abbreviations_marked_for_tests() {
    let mut host = dictionary();
    host.locale = "xx";
    let map = get_abbreviations_for_locale(&host).unwrap();
    assert_eq!(localise_abbrev(Some("pl"), "\"pl\"", &map).unwrap(), "^pl$");
    assert_eq!(
        localise_abbrev(Some("missingAbbreviation"), "\"missingAbbreviation\"", &map)
            .err()
            .unwrap(),
        "Error: abbreviation not found for \"missingAbbreviation\""
    );
    assert_eq!(
        localise_abbrev(None, "3", &map).err().unwrap(),
        "Error while converting value to str."
    );
}

#[test]
fn abbreviations_for_an_unknown_locale() {
    let mut host = dictionary();
    host.locale = "xxx";
    assert_eq!(
        get_abbreviations_for_locale(&host).err().unwrap(),
        "no such table: select name, description, xxx from _abbreviations"
    );
}

#[test]
fn abbreviations_with_short_rows() {
    let host = Host {
        locale: "en",
        answers: vec![(
            "select name, description, name from _abbreviations",
            r#"[[["pl","plural"]]]"#,
        )],
        transliteration_fails: false,
    };
    assert_eq!(
        get_abbreviations_for_locale(&host).err().unwrap(),
        "Abbreviations not found for locale 'en'."
    );
}

#[test]
fn later_abbreviation_rows_win() {
    let host = Host {
        locale: "en",
        answers: vec![(
            "select name, description, name from _abbreviations",
            r#"[[["m","masculine","m1"],["m","male","m2"]]]"#,
        )],
        transliteration_fails: false,
    };
    let map = get_abbreviations_for_locale(&host).unwrap();
    assert_eq!(map.get("m").unwrap(), "m2");
    assert_eq!(map.get("masculine").unwrap(), "m1");
    assert_eq!(map.entries().len(), 3);
}

#[test]
fn abbreviation_map_read_after_write() {
    let mut map = AbbreviationMap::new();
    assert!(map.get("a").is_none());
    map.insert("a".to_string(), "1".to_string());
    map.insert("b".to_string(), "2".to_string());
    map.insert("a".to_string(), "3".to_string());
    assert_eq!(map.get("a").unwrap(), "3");
    assert_eq!(map.get("b").unwrap(), "2");
    assert_eq!(map.entries().len(), 2);
}

fn meta(class: InflectionClass, pattern: &str, stem: &str) -> Pali1Metadata {
    Pali1Metadata {
        pali1: "deva".to_string(),
        stem: stem.to_string(),
        pattern: pattern.to_string(),
        pos: "masc".to_string(),
        meaning: "god".to_string(),
        inflection_class: class,
        like: "irreg".to_string(),
    }
}

fn describe(g: TableGenerator, table: &str, stem: &str) -> Result<String, String> {
    Ok(format!("{:?}|{}|{}", g, table, stem))
}

#[test]
fn html_body_uses_the_class_drawing() {
    let cases = [
        (InflectionClass::Conjugation, "Conjugation"),
        (InflectionClass::Declension, "Declension"),
        (InflectionClass::DeclensionPron1st, "DeclensionPron1st"),
        (InflectionClass::DeclensionPron2nd, "DeclensionPron2nd"),
        (InflectionClass::DeclensionPronDual, "DeclensionPronDual"),
    ];
    for (class, name) in cases {
        let body = create_html_body(&meta(class, "a masc 2", "dev"), describe).unwrap();
        assert_eq!(body, format!("{}|a_masc_2|dev", name));
    }
}

#[test]
fn html_body_of_an_indeclinable_is_empty() {
    let body = create_html_body(&meta(InflectionClass::Indeclinable, "", "-"), describe).unwrap();
    assert_eq!(body, "");
}

#[test]
fn html_body_passes_errors_on() {
    let fail = |_g: TableGenerator, t: &str, _s: &str| -> Result<String, String> {
        Err(format!("no table {}", t))
    };
    assert_eq!(
        create_html_body(&meta(InflectionClass::Declension, "a b", "x"), fail).err().unwrap(),
        "no table a_b"
    );
}

#[test]
fn page_of_a_verb_and_of_a_noun() {
    let host = dictionary();
    let vm = output_view_model(&meta(InflectionClass::Conjugation, "ti pr", "bhava"), "bhavati", "<b/>", &host)
        .unwrap();
    assert_eq!(vm.pali1, "^bhavati$");
    assert_eq!(vm.pattern, "ti pr");
    assert_eq!(vm.like, "irreg");
    assert_eq!(vm.pos, "masc");
    assert_eq!(vm.meaning, "god");
    assert_eq!(vm.body, "<b/>");
    assert_eq!(
        vm.feedback_form_url,
        "https://docs.google.com/forms/d/e/1FAIpQLSeJpx7TsISkYEXzxvbBtOH25T-ZO1Z5NFdujO5SD9qcAH_i1A/viewform"
    );
    assert_eq!(vm.host_url, "test case");
    assert_eq!(vm.host_version, "v0.1");
    let vm = output_view_model(&meta(InflectionClass::DeclensionPron1st, "", ""), "x", "", &host).unwrap();
    assert_eq!(
        vm.feedback_form_url,
        "https://docs.google.com/forms/d/e/1FAIpQLSeoxZiqvIWadaLeuXF4f44NCqEn49-B8KNbSvNer5jxgRYdtQ/viewform"
    );
}

#[test]
fn inflection_table_page_of_a_word() {
    let vm = inflection_table_view_model("ababa 1", &dictionary(), describe).unwrap();
    assert_eq!(vm.pali1, "^ababa 1$");
    assert_eq!(vm.body, "Declension|a_masc|abab");
    assert_eq!(vm.like, "like ^buddha$");
    let vm = inflection_table_view_model("a 1", &dictionary(), describe).unwrap();
    assert_eq!(vm.body, "");
    assert_eq!(vm.like, "indeclinable");
    assert!(inflection_table_view_model("xyz", &dictionary(), describe).is_err());
}

#[test]
fn inflections_are_transliterated_and_sorted() {
    let host = dictionary();
    let by_text = |a: &String, b: &String| -> i32 {
        match a.cmp(b) {
            std::cmp::Ordering::Less => -1,
            std::cmp::Ordering::Equal => 0,
            std::cmp::Ordering::Greater => 1,
        }
    };
    let forms = get_inflections("dev", "select forms", &host, by_text);
    assert_eq!(forms, vec!["", "^deva$", "^devb$"]);
    let reversed = |a: &String, b: &String| -> i32 { by_text(b, a) };
    let forms = get_inflections("dev", "select forms", &host, reversed);
    assert_eq!(forms, vec!["^devb$", "^deva$", ""]);
    // A failed query's message is split like a list of suffixes.
    let forms = get_inflections("", "select nothing", &host, by_text);
    assert_eq!(forms, vec!["^no such table: select nothing$"]);
}

#[test]
fn joining_and_transliterating() {
    let host = dictionary();
    assert_eq!(join_and_transliterate_if_not_empty("dev", "", &host), "");
    assert_eq!(join_and_transliterate_if_not_empty("dev", "o", &host), "^devo$");
    let mut failing = dictionary();
    failing.transliteration_fails = true;
    assert_eq!(
        join_and_transliterate_if_not_empty("dev", "o", &failing),
        "cannot transliterate devo"
    );
}

#[test]
fn counting_queries() {
    let host = dictionary();
    assert_eq!(query_has_no_results("select count(*) from x", &host), Ok(true));
    assert_eq!(query_has_no_results("select count(*) from y", &host), Ok(false));
    assert_eq!(
        query_has_no_results("select forms", &host),
        Ok(false)
    );
    let empty = Host {
        locale: "en",
        answers: vec![("select count(*) from z", "[]")],
        transliteration_fails: false,
    };
    assert_eq!(
        query_has_no_results("select count(*) from z", &empty),
        Err("Query 'select count(*) from z' returned no count.".to_string())
    );
}

#[test]
fn decoding_query_answers() {
    assert_eq!(
        decode_query_result(r#"[[["a","b"]],[]]"#).unwrap(),
        vec![vec![vec!["a".to_string(), "b".to_string()]], vec![]]
    );
    assert!(decode_query_result("not json").is_err());
    assert!(decode_query_result(r#"[["a"]]"#).is_err());
    let host = dictionary();
    assert_eq!(host.exec_sql_query("select count(*) from y").unwrap()[0][0][0], "12");
}

#[test]
fn dyn_hosts_are_accepted() {
    let host = dictionary();
    let dyn_host: &dyn PlsInflectionsHost = &host;
    assert_eq!(generate_all_inflections("a 1", dyn_host).unwrap(), vec!["a"]);
}

#[test]
fn regular_forms_are_irregular_forms_behind_the_stem() {
    let host = dictionary();
    let irregular = get_all_inflections_for_irregulars("a_masc", &host).unwrap();
    let regular = get_all_inflections_for_regulars("dev", "a_masc", &host).unwrap();
    let prefixed: Vec<String> = irregular.iter().map(|s| format!("dev{}", s)).collect();
    assert_eq!(regular, prefixed);
}

#[test]
fn page_ignores_the_looked_up_headword_and_stem() {
    let host = dictionary();
    let mut first = meta(InflectionClass::Declension, "a masc", "dev");
    first.pali1 = "deva".to_string();
    let mut second = meta(InflectionClass::Declension, "a masc", "other");
    second.pali1 = "something else".to_string();
    let a = output_view_model(&first, "deva 1", "<b/>", &host).unwrap();
    let b = output_view_model(&second, "deva 1", "<b/>", &host).unwrap();
    assert_eq!(a.pali1, "^deva 1$");
    assert_eq!(a.pali1, b.pali1);
    assert_eq!(a.pattern, b.pattern);
    assert_eq!(a.like, b.like);
    assert_eq!(a.body, b.body);
    assert_eq!(a.feedback_form_url, b.feedback_form_url);
}

#[test]
fn a_failed_page_transliteration_is_the_error() {
    let mut host = dictionary();
    host.transliteration_fails = true;
    let r = output_view_model(&meta(InflectionClass::Declension, "a masc", "dev"), "deva", "", &host);
    assert_eq!(r.err().unwrap(), "cannot transliterate deva");
}

#[test]
fn undecodable_answers_give_serde_json_messages() {
    let expected = serde_json::from_str::<Vec<Vec<Vec<String>>>>("[[1]]")
        .unwrap_err()
        .to_string();
    assert_eq!(decode_query_result("[[1]]").err().unwrap(), expected);
    let host = Host {
        locale: "en",
        answers: vec![("select bad", "[[1]]")],
        transliteration_fails: false,
    };
    assert_eq!(host.exec_sql_query("select bad").err().unwrap(), expected);
    assert_eq!(
        host.exec_sql_query("select missing").err().unwrap(),
        "no such table: select missing"
    );
}

#[test]
fn all_forms_of_a_regular_word_are_its_regular_forms() {
    let host = dictionary();
    let pm = get_pali1_metadata("ababa 1", &host).unwrap();
    let table = pm.pattern.replace(' ', "_");
    assert_eq!(
        generate_all_inflections("ababa 1", &host),
        get_all_inflections_for_regulars(&pm.stem, &table, &host)
    );
    assert_eq!(
        get_all_inflections_for_regulars("", "a_masc", &host),
        get_all_inflections_for_irregulars("a_masc", &host)
    );
}

#[test]
fn table_page_is_lookup_then_drawing_then_filling() {
    let host = dictionary();
    let whole = inflection_table_view_model("ababa 1", &host, describe).unwrap();
    let pm = get_pali1_metadata("ababa 1", &host).unwrap();
    let body = create_html_body(&pm, describe).unwrap();
    let filled = output_view_model(&pm, "ababa 1", &body, &host).unwrap();
    assert_eq!(whole.pali1, filled.pali1);
    assert_eq!(whole.pattern, filled.pattern);
    assert_eq!(whole.like, filled.like);
    assert_eq!(whole.pos, filled.pos);
    assert_eq!(whole.meaning, filled.meaning);
    assert_eq!(whole.body, filled.body);
    assert_eq!(whole.feedback_form_url, filled.feedback_form_url);
    assert_eq!(whole.host_url, filled.host_url);
    assert_eq!(whole.host_version, filled.host_version);
    assert_eq!(
        inflection_table_view_model("xyz", &host, describe).err(),
        get_pali1_metadata("xyz", &host).err()
    );
}
