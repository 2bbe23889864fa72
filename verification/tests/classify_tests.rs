use wws_runner::classify::{classify, is_js_file, RunnerHandlerType};
use wws_runner::runner::Runner;

#[test]
fn plain_js_paths_classify_as_javascript() {
    assert_eq!(classify("a.js"), RunnerHandlerType::JavaScript);
    assert_eq!(classify("dir/handler.js"), RunnerHandlerType::JavaScript);
    assert_eq!(classify("/abs/path/to/index.js"), RunnerHandlerType::JavaScript);
    assert_eq!(classify("a..js"), RunnerHandlerType::JavaScript);
    assert_eq!(classify("x.tar.js"), RunnerHandlerType::JavaScript);
}

#[test]
fn trailing_separators_still_name_the_file() {
    assert_eq!(classify("a.js/"), RunnerHandlerType::JavaScript);
    assert_eq!(classify("a.js//"), RunnerHandlerType::JavaScript);
    assert_eq!(classify("a.js/."), RunnerHandlerType::JavaScript);
}

#[test]
fn non_js_paths_classify_as_wasm() {
    assert_eq!(classify("a.wasm"), RunnerHandlerType::Wasm);
    assert_eq!(classify("noext"), RunnerHandlerType::Wasm);
    assert_eq!(classify(""), RunnerHandlerType::Wasm);
    assert_eq!(classify("a.jsx"), RunnerHandlerType::Wasm);
    assert_eq!(classify("a.js.bak"), RunnerHandlerType::Wasm);
    assert_eq!(classify("js"), RunnerHandlerType::Wasm);
    assert_eq!(classify("ajs"), RunnerHandlerType::Wasm);
}

#[test]
fn extension_comparison_is_case_sensitive() {
    assert_eq!(classify("a.JS"), RunnerHandlerType::Wasm);
    assert_eq!(classify("a.Js"), RunnerHandlerType::Wasm);
}

#[test]
fn dot_files_have_no_extension() {
    assert_eq!(classify(".js"), RunnerHandlerType::Wasm);
    assert_eq!(classify("dir/.js"), RunnerHandlerType::Wasm);
    assert_eq!(classify(".."), RunnerHandlerType::Wasm);
    assert_eq!(classify("."), RunnerHandlerType::Wasm);
    assert_eq!(classify("a."), RunnerHandlerType::Wasm);
}

#[test]
fn is_js_file_agrees_with_classify() {
    assert!(is_js_file("a.js"));
    assert!(Runner::is_js_file("b/c.js"));
    assert!(!Runner::is_js_file("b/c.wasm"));
    assert!(!is_js_file(".js"));
}
