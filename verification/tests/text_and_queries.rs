use pls_core::abbreviations::abbreviations_query;
use pls_core::inflections::{get_table_name_from_pattern, suffix_query};
use pls_core::metadata::{
    get_stem_for_indeclinable, index_entry, index_query, inflection_class_from_str,
    metadata_from_stems_answer, stems_query, InflectionClass,
};
use pls_core::inflections::inflections_from_suffix_answer;
use pls_core::ordering::sort_texts;
use pls_core::output::feedback_form_url;
use pls_core::text::{
    is_whitespace_char, replace_spaces_with_underscores, split_text, text_equals, text_is_blank,
};

fn strings(v: &[&str]) -> Vec<String> {
    v.iter().map(|s| s.to_string()).collect()
}

#[test]
fn splitting_keeps_empty_pieces() {
    assert_eq!(split_text("a,b", ','), strings(&["a", "b"]));
    assert_eq!(split_text("", ','), strings(&[""]));
    assert_eq!(split_text(",a,,ṃ,", ','), strings(&["", "a", "", "ṃ", ""]));
    assert_eq!(split_text("āṃī", ','), strings(&["āṃī"]));
    for s in ["a,b", "", ",,", "x,y,z", "ā,ī"] {
        assert_eq!(split_text(s, ',').join(","), s);
    }
}

#[test]
fn table_names_have_underscores() {
    assert_eq!(get_table_name_from_pattern("a masc"), "a_masc");
    assert_eq!(get_table_name_from_pattern(" ā  pr "), "_ā__pr_");
    assert_eq!(get_table_name_from_pattern("plain"), "plain");
    assert_eq!(replace_spaces_with_underscores(""), "");
}

#[test]
fn blank_and_equal_texts() {
    assert!(text_is_blank(""));
    assert!(text_is_blank(" \t\n\u{3000}"));
    assert!(!text_is_blank(" a "));
    assert!(text_equals("ā", "ā"));
    assert!(!text_equals("a", "ā"));
}

#[test]
fn classes_from_index_names() {
    assert!(matches!(inflection_class_from_str("verb"), InflectionClass::Conjugation));
    assert!(matches!(inflection_class_from_str("pron1st"), InflectionClass::DeclensionPron1st));
    assert!(matches!(inflection_class_from_str("pron2nd"), InflectionClass::DeclensionPron2nd));
    assert!(matches!(inflection_class_from_str("prondual"), InflectionClass::DeclensionPronDual));
    assert!(matches!(inflection_class_from_str("declension"), InflectionClass::Declension));
    assert!(matches!(inflection_class_from_str(""), InflectionClass::Declension));
    assert!(matches!(inflection_class_from_str("Verb"), InflectionClass::Declension));
}

#[test]
fn query_texts() {
    assert_eq!(
        stems_query("kamma 1"),
        r#"select stem, pattern, pos, definition from '_stems' where pāli1 = "kamma 1""#
    );
    assert_eq!(
        index_query("a nt"),
        r#"select inflection_class, like from '_index' where name = "a nt""#
    );
    assert_eq!(suffix_query("a_nt"), "Select * from a_nt");
    assert_eq!(
        abbreviations_query("xx"),
        "select name, description, '^' || name || '$' from _abbreviations"
    );
    assert_eq!(abbreviations_query("en"), "select name, description, name from _abbreviations");
    assert_eq!(abbreviations_query("hi"), "select name, description, hi from _abbreviations");
}

#[test]
fn stem_rows() {
    let row = |cells: &[&str]| vec![vec![strings(cells)]];
    let pm = metadata_from_stems_answer("deva", &row(&["dev", "a masc", "masc", "god"])).unwrap();
    assert_eq!((pm.pali1.as_str(), pm.stem.as_str(), pm.pattern.as_str()), ("deva", "dev", "a masc"));
    assert_eq!((pm.pos.as_str(), pm.meaning.as_str(), pm.like.as_str()), ("masc", "god", ""));
    assert!(matches!(pm.inflection_class, InflectionClass::Declension));
    let pm = metadata_from_stems_answer("x", &row(&["*", "p", "q", "r"])).unwrap();
    assert_eq!(pm.stem, "");
    assert_eq!(
        metadata_from_stems_answer("x", &row(&["a", "b", "c"])).err().unwrap(),
        "Word 'x' not found in db."
    );
    assert_eq!(
        metadata_from_stems_answer("x", &vec![]).err().unwrap(),
        "Word 'x' not found in db."
    );
    let two_rows = vec![vec![strings(&["a", "b", "c", "d"]), strings(&["a", "b", "c", "d"])]];
    assert!(metadata_from_stems_answer("x", &two_rows).is_err());
}

#[test]
fn index_rows() {
    let entry = index_entry("p", &vec![vec![strings(&["verb", "bhavati", "extra"])]]).unwrap();
    assert_eq!(entry, ("verb".to_string(), "bhavati".to_string()));
    assert_eq!(
        index_entry("p", &vec![vec![strings(&["verb"])]]).err().unwrap(),
        "Pattern 'p' not found in index."
    );
}

#[test]
fn homonym_numbers_are_removed() {
    assert_eq!(get_stem_for_indeclinable("a 1").unwrap(), "a");
    assert_eq!(get_stem_for_indeclinable("kāmaṃ 23").unwrap(), "kāmaṃ");
    assert_eq!(get_stem_for_indeclinable("a 1 2").unwrap(), "a 1");
    assert_eq!(get_stem_for_indeclinable("a1").unwrap(), "a1");
    assert_eq!(get_stem_for_indeclinable("a 1b").unwrap(), "a 1b");
    assert_eq!(get_stem_for_indeclinable("x \u{663}").unwrap(), "x");
}

#[test]
fn suffix_tables() {
    let tables = vec![
        vec![strings(&["ignored"])],
        vec![strings(&["nom", "o"]), strings(&["acc", "aṃ,e"])],
    ];
    assert_eq!(
        inflections_from_suffix_answer("dev", "p", &tables).unwrap(),
        strings(&["devo", "devaṃ", "deve"])
    );
    let with_empty_row = vec![vec![strings(&["o"]), vec![]]];
    assert_eq!(
        inflections_from_suffix_answer("dev", "p", &with_empty_row).err().unwrap(),
        "No pattern found for p"
    );
    assert_eq!(
        inflections_from_suffix_answer("dev", "p", &vec![vec![]]).unwrap(),
        Vec::<String>::new()
    );
}

#[test]
fn sorting_is_stable() {
    let by_first_char = |a: &String, b: &String| -> i32 {
        let x = a.chars().next().unwrap_or(' ') as i32;
        let y = b.chars().next().unwrap_or(' ') as i32;
        x - y
    };
    assert_eq!(
        sort_texts(strings(&["b2", "a1", "b1", "a2", "c"]), by_first_char),
        strings(&["a1", "a2", "b2", "b1", "c"])
    );
    assert_eq!(sort_texts(Vec::new(), by_first_char), Vec::<String>::new());
}

#[test]
fn feedback_forms() {
    assert!(feedback_form_url(InflectionClass::Conjugation).contains("1FAIpQLSeJpx7TsISkYEXzxvbBtOH25T"));
    for class in [
        InflectionClass::Indeclinable,
        InflectionClass::Declension,
        InflectionClass::DeclensionPron1st,
        InflectionClass::DeclensionPron2nd,
        InflectionClass::DeclensionPronDual,
    ] {
        assert!(feedback_form_url(class).contains("1FAIpQLSeoxZiqvIWadaLeuXF4f44NCqEn49"));
    }
}

#[test]
fn white_space_is_what_std_says() {
    for n in 0u32..=0x10FFFF {
        if let Some(c) = char::from_u32(n) {
            assert_eq!(is_whitespace_char(c), c.is_whitespace(), "{:x}", n);
        }
    }
}
