//! The blast radius of a diff.
use maestro_core::impact::{
    build_impacted, contains_word, derive_signature, is_source_file, scan_for_links, scannable,
    select_candidates, FileSignature, ImpactLink, ImpactManager, ScannedFile, MAX_FILE_BYTES,
    MAX_LINKS_PER_FILE, MAX_SYMBOLS_PER_FILE,
};

fn sig(path: &str, content: &str) -> FileSignature {
    derive_signature(path, Some(content))
}

fn scanned(path: &str, content: &str) -> ScannedFile {
    ScannedFile { path: path.into(), content: Some(content.into()), too_large: false }
}

#[test]
fn stems_fall_back_to_the_directory_for_generic_names() {
    assert_eq!(derive_signature("core/session/mod.rs", None).stem, "session");
    assert_eq!(derive_signature("src/components/index.ts", None).stem, "components");
    assert_eq!(derive_signature("src/state/sessions.ts", None).stem, "sessions");
    assert_eq!(derive_signature("Data/UserRepository.cs", None).stem, "UserRepository");
}

#[test]
fn rust_symbols_are_extracted_from_pub_items() {
    let s = sig(
        "core/gate/mod.rs",
        "pub struct GateManager {}\npub(crate) fn match_rule() {}\nfn private() {}\npub const MAX_RULES: usize = 4;\n",
    );
    assert_eq!(s.symbols, vec!["GateManager", "match_rule", "MAX_RULES"]);
}

#[test]
fn ts_symbols_are_extracted_from_exports() {
    let s = sig(
        "src/utils/agentAsk.ts",
        "export function askMainAgent() {}\nexport const START_MODEL = \"x\";\nconst hidden = 1;\nexport interface AskResult {}\n",
    );
    assert_eq!(s.symbols, vec!["askMainAgent", "START_MODEL", "AskResult"]);
}

#[test]
fn csharp_symbols_are_types_only() {
    let s = sig(
        "Logic/InMailPolicy.cs",
        "public sealed class InMailCreditsSkipPolicy {}\n    public void HelperMethod() {}\ninternal interface ISkipPolicy {}\n",
    );
    assert_eq!(s.symbols, vec!["InMailCreditsSkipPolicy", "ISkipPolicy"]);
}

#[test]
fn import_lines_link_stronger_than_symbol_mentions() {
    let changed = vec![sig(
        "src/state/sessions.ts",
        "export const useSessions = 1;\nexport function activeSessionCount() {}\n",
    )];
    // An import line naming the module → import link.
    let importer = "import { useSessions } from \"../state/sessions\";\n";
    let links = scan_for_links(importer, &changed);
    assert_eq!(links.len(), 1);
    assert_eq!(links[0].kind, "import");
    assert_eq!(links[0].matched, "sessions");

    // A mere mention of an exported symbol → reference link.
    let mentioner = "// uses activeSessionCount indirectly\nconst n = activeSessionCount();\n";
    let links = scan_for_links(mentioner, &changed);
    assert_eq!(links.len(), 1);
    assert_eq!(links[0].kind, "reference");
    assert_eq!(links[0].matched, "activeSessionCount");
}

#[test]
fn whole_word_matching_rejects_substrings() {
    assert!(contains_word("let session_id = 1;", "session_id"));
    assert!(!contains_word("let session_identifier = 1;", "session_id"));
    assert!(!contains_word("mysession_id", "session_id"));
    assert!(contains_word("use crate::core::session::manager;", "manager"));
}

#[test]
fn rust_use_lines_link_by_module_stem() {
    let changed = vec![sig(
        "src-tauri/src/core/session/manager.rs",
        "pub struct SessionManager {}\n",
    )];
    let links =
        scan_for_links("use crate::core::session::manager::SessionManager;\n", &changed);
    assert_eq!(links.len(), 1);
    assert_eq!(links[0].kind, "import");
}

#[test]
fn unrelated_files_produce_no_links() {
    let changed = vec![sig("src/state/pr.ts", "export const usePr = 1;\n")];
    let links =
        scan_for_links("import { x } from \"./other\";\nconst y = somethingElse();\n", &changed);
    assert!(links.is_empty());
}

#[test]
fn short_symbols_are_skipped_entirely() {
    let s = sig(
        "src/x.ts",
        "export const on = 1;\nexport const id = 2;\nexport const useX = 3;\n",
    );
    assert_eq!(
        s.symbols,
        vec!["useX"],
        "2-char names match everything, so they are dropped"
    );
}

#[test]
fn deleted_files_still_match_by_stem() {
    let changed = vec![derive_signature("src/utils/oldHelper.ts", None)];
    let links = scan_for_links("import { a } from \"../utils/oldHelper\";\n", &changed);
    assert_eq!(links.len(), 1);
    assert_eq!(links[0].kind, "import");
    assert_eq!(links[0].matched, "oldHelper");
}

#[test]
fn build_impacted_prefers_imports_and_caps_links() {
    let mut links = Vec::new();
    for i in 0..12 {
        links.push(ImpactLink {
            target: format!("file{i}.rs"),
            kind: "reference".into(),
            matched: format!("Sym{i}"),
        });
    }
    links.push(ImpactLink {
        target: "imported.rs".into(),
        kind: "import".into(),
        matched: "imported".into(),
    });
    let impacted = build_impacted("dependent.rs", 1, links);
    assert_eq!(impacted.kind, "import");
    assert_eq!(impacted.links.len(), MAX_LINKS_PER_FILE);
    assert_eq!(impacted.links[0].kind, "import", "imports survive the cap first");
}

#[test]
fn source_files_are_told_by_their_extension() {
    assert!(is_source_file("src/main.rs"));
    assert!(!is_source_file("README.md"));
    assert!(!is_source_file("Makefile"));
}

#[test]
fn changed_files_are_no_candidates() {
    let listed = vec!["a.rs".to_string(), "b.rs".to_string(), "c.md".to_string()];
    let picked = select_candidates(&listed, &vec!["a.rs".to_string()]);
    assert_eq!(picked.paths, ["b.rs"]);
    assert!(!picked.truncated);
}

#[test]
fn the_report_holds_both_rings_strongest_first() {
    let changed = vec![scanned("core/alpha.rs", "pub struct AlphaThing {}\n")];
    let candidates = vec![
        scanned("z/user.rs", "let x = AlphaThing {};\n"),
        scanned("m/importer.rs", "use crate::core::alpha::AlphaThing;\n"),
        scanned("q/second.rs", "use crate::m::importer::Thing;\n"),
        scanned("n/other.rs", "fn nothing() {}\n"),
    ];
    let report = ImpactManager::analyze("b", &changed, &candidates, false);
    assert_eq!(report.analyzed, ["core/alpha.rs"]);
    let found: Vec<(String, u8, String)> = report
        .impacted
        .iter()
        .map(|f| (f.path.clone(), f.distance, f.kind.clone()))
        .collect();
    assert_eq!(
        found,
        [
            ("m/importer.rs".to_string(), 1, "import".to_string()),
            ("z/user.rs".to_string(), 1, "reference".to_string()),
            ("q/second.rs".to_string(), 2, "import".to_string()),
        ]
    );
    assert!(!report.truncated);
}

#[test]
fn every_cap_that_is_hit_is_told() {
    let changed = || vec![scanned("core/alpha.rs", "pub struct AlphaThing {}\n")];
    let big = || scannable("big.rs".into(), MAX_FILE_BYTES + 1, None);
    let small = || scanned("n/other.rs", "fn nothing() {}\n");

    // A candidate or a changed file over the size cap.
    let report = ImpactManager::analyze("b", &changed(), &vec![small(), big()], false);
    assert!(report.truncated);
    assert_eq!(report.scanned, 1);
    let report = ImpactManager::analyze("b", &vec![big()], &vec![small()], false);
    assert!(report.truncated);
    assert_eq!(report.analyzed, ["big.rs"]);

    // More symbols than are searched for; exactly as many are fine.
    let exporting = |n: usize| {
        let lines: String = (0..n).map(|i| format!("pub struct Thing{i} {{}}\n")).collect();
        vec![scanned("core/many.rs", &lines)]
    };
    let report =
        ImpactManager::analyze("b", &exporting(MAX_SYMBOLS_PER_FILE + 1), &vec![small()], false);
    assert!(report.truncated);
    let report =
        ImpactManager::analyze("b", &exporting(MAX_SYMBOLS_PER_FILE), &vec![small()], false);
    assert!(!report.truncated);

    // More links than an entry names.
    let many: Vec<ScannedFile> = (0..MAX_LINKS_PER_FILE + 1)
        .map(|i| scanned(&format!("core/mod{i}.rs"), &format!("pub struct Item{i}Thing {{}}\n")))
        .collect();
    let user: String =
        (0..MAX_LINKS_PER_FILE + 1).map(|i| format!("let x = Item{i}Thing {{}};\n")).collect();
    let report = ImpactManager::analyze("b", &many, &vec![scanned("u.rs", &user)], false);
    assert_eq!(report.impacted[0].links.len(), MAX_LINKS_PER_FILE);
    assert!(report.truncated);
}

#[test]
fn files_without_text_are_skipped() {
    let binary = scannable("a.rs".into(), 3, Some("a\0b".into()));
    assert!(binary.content.is_none() && !binary.too_large);
    let gone = scannable("a.rs".into(), 0, None);
    assert!(gone.content.is_none() && !gone.too_large);
    let text = scannable("a.rs".into(), MAX_FILE_BYTES, Some("fn a() {}".into()));
    assert_eq!(text.content.as_deref(), Some("fn a() {}"));
    let report =
        ImpactManager::analyze("b", &vec![scanned("c.rs", "")], &vec![binary, gone], false);
    assert!(!report.truncated);
}
