use dhara_storage::mime::{clean_basic_mime_type, MimeCatalog, MimeConfidence};
use dhara_storage::sluice::score_definition;
use dhara_storage::trid::{ParsedTridDefinition, TridPattern, TridSignature};
use dhara_storage::sluice::ExtensionSeeds;
use dhara_storage::mime::MimeResolution;
use dhara_storage::sluice::SluiceCandidate;

fn mime_catalog() -> MimeCatalog {
    MimeCatalog::from_lists(
        "application/pdf\napplication/zip\nimage/png\ntext/plain\n",
        "application/x-custom\n",
    )
}

#[test]
fn cleans_common_mime_typos() {
    assert_eq!(clean_basic_mime_type("  Applicaiton/PDF; "), "application/pdf");
}

#[test]
fn canonicalizes_exact_and_fuzzy_mime_types() {
    let catalog = mime_catalog();
    let mut cache = catalog.new_cache();

    let exact = catalog
        .canonicalize("application/pdf", &mut cache)
        .expect("exact MIME type should resolve");
    assert_eq!(exact.canonical, "application/pdf");
    assert_eq!(exact.confidence, MimeConfidence::ExactIana);

    let corrected = catalog
        .canonicalize("applicaiton/pdf", &mut cache)
        .expect("typo should be repaired");
    assert_eq!(corrected.canonical, "application/pdf");
    assert_eq!(corrected.confidence, MimeConfidence::ExactIana);

    let fuzzy = catalog
        .canonicalize("application/pdff", &mut cache)
        .expect("fuzzy MIME type should resolve");
    assert_eq!(fuzzy.canonical, "application/pdf");
    assert_eq!(fuzzy.confidence, MimeConfidence::FuzzyIana);
}

#[test]
fn rejects_unrecognized_mime_types() {
    let catalog = mime_catalog();
    let mut cache = catalog.new_cache();

    assert!(catalog
        .canonicalize("definitely/not-a-real-type", &mut cache)
        .is_none());
}

#[test]
fn higher_quality_definitions_score_above_weaker_ones() {
    let strong = ParsedTridDefinition {
        file_type: "Strong".to_string(),
        extensions: vec!["png".to_string()],
        mime_type: "image/png".to_string(),
        remarks: String::new(),
        signature: TridSignature {
            patterns: vec![
                TridPattern {
                    position: 0,
                    data: vec![0x89, 0x50, 0x4E, 0x47],
                },
                TridPattern {
                    position: 8,
                    data: vec![0x49, 0x48, 0x44, 0x52],
                },
            ],
            strings: vec![b"IHDR".to_vec()],
        },
        file_count: 500,
    };
    let weak = ParsedTridDefinition {
        file_type: "Weak".to_string(),
        extensions: vec!["png".to_string()],
        mime_type: "image/png".to_string(),
        remarks: String::new(),
        signature: TridSignature {
            patterns: vec![TridPattern {
                position: 16,
                data: vec![0x00],
            }],
            strings: Vec::new(),
        },
        file_count: 2,
    };

    let strong_score = score_definition(&strong, 1, MimeConfidence::ExactIana);
    let weak_score = score_definition(&weak, 1, MimeConfidence::FuzzyIana);

    assert!(strong_score > weak_score);
}

#[test]
fn extension_levels_pick_the_most_common_list() {
    let seeds = ExtensionSeeds::from_lists("PNG\njpg\n", "pdf\n", "", "zzs\n", "");
    assert_eq!(seeds.best_level(&vec!["zzs".to_string(), "pdf".to_string()]), Some(2));
    assert_eq!(seeds.best_level(&vec!["png".to_string()]), Some(1));
    assert_eq!(seeds.best_level(&vec!["zzs".to_string()]), Some(4));
    assert_eq!(seeds.best_level(&vec!["none".to_string()]), None);
}

#[test]
fn sluice_candidate_carries_its_score() {
    let definition = ParsedTridDefinition {
        file_type: "Portable Network Graphics".to_string(),
        extensions: vec!["png".to_string()],
        mime_type: "image/png".to_string(),
        remarks: String::new(),
        signature: TridSignature {
            patterns: vec![TridPattern { position: 0, data: vec![0x89, 0x50, 0x4E, 0x47] }],
            strings: Vec::new(),
        },
        file_count: 10,
    };
    let expected = score_definition(&definition, 1, MimeConfidence::ExactIana);
    let resolution = MimeResolution {
        canonical: "image/png".to_string(),
        confidence: MimeConfidence::ExactIana,
    };
    let candidate = SluiceCandidate::from_definition(definition, 1, &resolution);
    assert_eq!(candidate.score, expected);
    assert_eq!(candidate.canonical_mime, "image/png");
    assert_eq!(candidate.level, 1);
}

#[test]
fn mime_similarity_of_exactly_seven_tenths_is_not_above_the_threshold() {
    // Type similarity 1/3 (one of three letters kept), subtype similarity 6/7: exactly
    // 0.3 * 1/3 + 0.7 * 6/7 = 7/10, which is not above seven tenths.
    let catalog = MimeCatalog::from_lists("abc/abcdefg\n", "");
    assert!(catalog.canonicalize_uncached("axy/abcdefx").is_none());
    // One more letter in common lifts it above the threshold.
    let fuzzy = catalog.canonicalize_uncached("abx/abcdefx").expect("above seven tenths");
    assert_eq!(fuzzy.canonical, "abc/abcdefg");
    assert_eq!(fuzzy.confidence, MimeConfidence::FuzzyIana);
}
