use novel_translator::glossary::{glossary_file_name, merge_terms, AnalysisResult, ChapterGlossary};
use novel_translator::resume::{
    choose_start, parse_decimal, initial_glossary, is_confirmation, is_quit, read_start_request, seed_chapter,
    suggested_resume_index, ChapterStatus, RunLoop, StartRequest,
};
use novel_translator::text::{same_text, strip_code_fences, trimmed, unescape_newlines};

fn st(has_output: bool, has_glossary: bool) -> ChapterStatus {
    ChapterStatus { has_output, has_glossary }
}

fn pairs(v: &[(&str, &str)]) -> Vec<(String, String)> {
    v.iter().map(|(k, t)| (k.to_string(), t.to_string())).collect()
}

fn lookup<'a>(terms: &'a [(String, String)], key: &str) -> Option<&'a str> {
    terms.iter().find(|(k, _)| k == key).map(|(_, v)| v.as_str())
}

fn snapshot(name: &str, summary: &str, terms: &[(&str, &str)]) -> ChapterGlossary {
    ChapterGlossary { chapter_name: name.to_string(), summary: summary.to_string(), terms: pairs(terms) }
}

#[test]
fn resume_index_example() {
    let s = vec![st(true, true), st(false, true), st(false, false)];
    assert_eq!(suggested_resume_index(&s), 1);
    assert_eq!(seed_chapter(1), Some(0));
}

#[test]
fn resume_index_at_first_missing_chapter() {
    let s = vec![st(true, true), st(true, true), st(false, false), st(false, false)];
    assert_eq!(suggested_resume_index(&s), 2);
}

#[test]
fn resume_index_all_complete_is_length() {
    let s = vec![st(true, true), st(true, true), st(true, true)];
    assert_eq!(suggested_resume_index(&s), 3);
    assert_eq!(suggested_resume_index(&Vec::new()), 0);
}

#[test]
fn resume_index_output_without_glossary_is_incomplete() {
    let s = vec![st(true, false), st(true, true)];
    assert_eq!(suggested_resume_index(&s), 0);
}

#[test]
fn resume_index_reports_first_hole() {
    let s = vec![st(true, true), st(false, false), st(true, true)];
    assert_eq!(suggested_resume_index(&s), 1);
}

#[test]
fn seed_comes_from_previous_chapter() {
    assert_eq!(seed_chapter(0), None);
    assert_eq!(seed_chapter(5), Some(4));
}

#[test]
fn start_choice_follows_input() {
    assert_eq!(read_start_request("  \n"), StartRequest::Suggested);
    assert_eq!(read_start_request(" 3 \n"), StartRequest::Number(3));
    assert_eq!(read_start_request("three"), StartRequest::Invalid);
    assert_eq!(read_start_request("-1"), StartRequest::Invalid);
    assert_eq!(choose_start(StartRequest::Number(3), 1, 4), Some(2));
    assert_eq!(choose_start(StartRequest::Number(1), 3, 4), Some(0));
    assert_eq!(choose_start(StartRequest::Number(5), 1, 4), Some(1));
    assert_eq!(choose_start(StartRequest::Number(0), 1, 4), Some(1));
    assert_eq!(choose_start(StartRequest::Suggested, 2, 4), Some(2));
    assert_eq!(choose_start(StartRequest::Suggested, 4, 4), None);
    assert_eq!(choose_start(StartRequest::Invalid, 4, 4), None);
    assert_eq!(choose_start(StartRequest::Number(4), 4, 4), Some(3));
}

#[test]
fn confirmation_and_quit_answers() {
    assert!(is_confirmation(" y\n"));
    assert!(is_confirmation("Y"));
    assert!(!is_confirmation("yes"));
    assert!(!is_confirmation(""));
    assert!(is_quit("q\n"));
    assert!(is_quit(" Q "));
    assert!(!is_quit("quit"));
}

#[test]
fn initial_glossary_choices() {
    let g = initial_glossary(0, None, false).unwrap();
    assert!(g.terms.is_empty() && g.summary.is_empty());
    let loaded = snapshot("ch1", "story", &[("Alice", "愛麗絲")]);
    let g = initial_glossary(2, Some(loaded), false).unwrap();
    assert_eq!(g.chapter_name, "ch1");
    assert_eq!(lookup(&g.terms, "Alice"), Some("愛麗絲"));
    let g = initial_glossary(2, None, true).unwrap();
    assert!(g.terms.is_empty());
    assert!(initial_glossary(2, None, false).is_none());
}

#[test]
fn merge_overrides_and_keeps() {
    let prior = pairs(&[("Alice", "愛麗絲"), ("Bob", "鮑伯")]);
    let new_terms = pairs(&[("Bob", "包柏"), ("Carol", "卡羅")]);
    let merged = merge_terms(&prior, &new_terms);
    assert_eq!(merged.len(), 3);
    assert_eq!(lookup(&merged, "Alice"), Some("愛麗絲"));
    assert_eq!(lookup(&merged, "Bob"), Some("包柏"));
    assert_eq!(lookup(&merged, "Carol"), Some("卡羅"));
}

#[test]
fn merge_with_empty_sides() {
    let prior = pairs(&[("Alice", "愛麗絲")]);
    assert_eq!(merge_terms(&prior, &Vec::new()), prior);
    let new_terms = pairs(&[("Bob", "鮑伯")]);
    assert_eq!(merge_terms(&Vec::new(), &new_terms), new_terms);
}

#[test]
fn merge_repeated_new_key_last_wins() {
    let new_terms = pairs(&[("Bob", "one"), ("Bob", "two")]);
    let merged = merge_terms(&Vec::new(), &new_terms);
    assert_eq!(merged, pairs(&[("Bob", "two")]));
}

#[test]
fn snapshot_term_count_and_copy() {
    let g = snapshot("ch2", "s", &[("A", "a"), ("B", "b")]);
    assert_eq!(g.term_count(), 2);
    let c = g.copy();
    assert_eq!(c.chapter_name, "ch2");
    assert_eq!(c.terms, g.terms);
}

#[test]
fn fences_are_stripped() {
    assert_eq!(strip_code_fences("```json\n{\"a\":1}\n```"), "\n{\"a\":1}\n");
    assert_eq!(strip_code_fences("  ```\n{}\n```  \n"), "\n{}\n");
    assert_eq!(strip_code_fences("{\"summary\":\"x\"}"), "{\"summary\":\"x\"}");
    assert_eq!(strip_code_fences("``````"), "");
    assert_eq!(strip_code_fences(""), "");
}

#[test]
fn newlines_are_unescaped() {
    assert_eq!(unescape_newlines("a\\nb\\n\\nc"), "a\nb\n\nc");
    assert_eq!(unescape_newlines("no escapes"), "no escapes");
    assert_eq!(unescape_newlines("\\\\n"), "\\\n");
    assert_eq!(unescape_newlines("end\\"), "end\\");
}

#[test]
fn trimming_and_comparison() {
    assert_eq!(trimmed("\u{3000} 第一章\t\n"), "第一章");
    assert!(same_text("abc", "abc"));
    assert!(!same_text("abc", "abd"));
    assert!(!same_text("abc", "ab"));
}

#[test]
fn glossary_file_is_named_by_chapter() {
    assert_eq!(glossary_file_name("chapter_01"), "chapter_01.json");
}

#[test]
fn run_loop_threads_snapshots() {
    let mut run = RunLoop::new(1, 3, ChapterGlossary::empty());
    assert_eq!(run.pending(), Some(1));
    run.chapter_done(Some(snapshot("ch2", "s2", &[("A", "a")])));
    assert_eq!(run.pending(), Some(2));
    assert_eq!(run.current.chapter_name, "ch2");
    run.chapter_done(None);
    assert_eq!(run.pending(), None);
    assert_eq!(run.current.chapter_name, "ch2");
    assert_eq!(run.next, 2);
}

#[test]
fn run_loop_ends_after_last_chapter() {
    let mut run = RunLoop::new(0, 1, ChapterGlossary::empty());
    run.chapter_done(Some(snapshot("ch1", "s1", &[])));
    assert_eq!(run.pending(), None);
    assert!(!run.stopped);
    let mut run = RunLoop::new(0, 2, ChapterGlossary::empty());
    run.stop();
    assert_eq!(run.pending(), None);
}

#[test]
fn analysis_result_holds_new_terms() {
    let a = AnalysisResult { summary: "s".to_string(), new_terms: pairs(&[("K", "V")]) };
    assert_eq!(a.new_terms.len(), 1);
}

#[test]
fn decimal_numbers_are_read() {
    assert_eq!(parse_decimal("42"), Some(42));
    assert_eq!(parse_decimal("+7"), Some(7));
    assert_eq!(parse_decimal("007"), Some(7));
    assert_eq!(parse_decimal(""), None);
    assert_eq!(parse_decimal("+"), None);
    assert_eq!(parse_decimal("-3"), None);
    assert_eq!(parse_decimal("4a"), None);
    assert_eq!(parse_decimal("١٢"), None);
    assert_eq!(parse_decimal(&usize::MAX.to_string()), Some(usize::MAX));
    assert_eq!(parse_decimal("99999999999999999999999"), None);
    assert_eq!(parse_decimal("99999999999999999999999x"), None);
    assert_eq!(read_start_request(" +2 "), StartRequest::Number(2));
}
