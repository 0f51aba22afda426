use indigo_poy::report::{escape_html, escape_json_in_html, ReportData};
use indigo_poy::verify::bundle::{reproducibility_hash, EvidenceBundle};

#[test]
fn html_is_escaped() {
    assert_eq!(escape_html("a<b>&\"c'"), "a&lt;b&gt;&amp;&quot;c&#39;");
    assert_eq!(escape_html(""), "");
    assert_eq!(escape_html("plain é ü"), "plain é ü");
    assert_eq!(escape_html("&amp;"), "&amp;amp;");
    assert_eq!(escape_json_in_html(r#"{"a":"<b>"}"#), "{&quot;a&quot;:&quot;&lt;b&gt;&quot;}");
}

#[test]
fn report_data_holds_bundle_and_hash() {
    let bundle = EvidenceBundle::demo();
    let hash = reproducibility_hash(&bundle).unwrap();
    let data = ReportData { bundle, reproducibility_hash_sha256: hash.clone() };
    assert_eq!(data.reproducibility_hash_sha256, hash);
    assert_eq!(data.bundle.version, 1);
}
