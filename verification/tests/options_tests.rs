use indexmap::IndexMap;
use turbo_tasks::options::{
    string_set_contains, string_set_insert, string_set_len, string_set_new, string_set_to_vec,
};
use turbo_tasks::options::{
    options_from_request, FontDataEntry, FontOptionsError, FontWeights, NextFontGoogleOptions,
    NextFontRequest, NextFontRequestArguments, OneOrManyStrings,
};

fn strings(items: &[&str]) -> Vec<String> {
    items.iter().map(|s| s.to_string()).collect()
}

fn abeezee(weights: &[&str], styles: &[&str]) -> IndexMap<String, FontDataEntry> {
    let mut data = IndexMap::new();
    data.insert(
        "ABeeZee".to_string(),
        FontDataEntry {
            weights: strings(weights),
            styles: strings(styles),
        },
    );
    data
}

fn arguments() -> NextFontRequestArguments {
    NextFontRequestArguments {
        weight: None,
        style: None,
        display: None,
        preload: false,
        axes: None,
        fallback: None,
        adjust_font_fallback: false,
        variable: None,
        subsets: None,
    }
}

fn request(import: &str, arguments: NextFontRequestArguments) -> NextFontRequest {
    NextFontRequest {
        import: import.to_string(),
        path: "index.js".to_string(),
        variable_name: import.to_lowercase(),
        arguments,
    }
}

fn message(e: &FontOptionsError) -> String {
    e.message()
}

fn styles_of(options: &NextFontGoogleOptions) -> Vec<String> {
    options.styles.iter().cloned().collect()
}

#[test]
fn test_errors_on_unknown_font() {
    let data = abeezee(&["400"], &["normal", "italic"]);
    let req = request("Inter", arguments());
    match options_from_request(req, &data) {
        Ok(_) => panic!(),
        Err(err) => assert_eq!(message(&err), "Unknown font"),
    }
}

#[test]
fn test_falls_back_to_variable_when_no_weights_chosen() {
    let data = abeezee(&["400", "variable"], &["normal", "italic"]);
    let req = request("ABeeZee", arguments());
    let options = options_from_request(req, &data).unwrap();
    assert!(matches!(options.weights, FontWeights::Variable));
}

#[test]
fn test_errors_when_no_weights_chosen_no_variable() {
    let data = abeezee(&["400"], &["normal", "italic"]);
    let req = request("ABeeZee", arguments());
    match options_from_request(req, &data) {
        Ok(_) => panic!(),
        Err(err) => assert_eq!(
            message(&err),
            "Missing weight for ABeeZee. Available weights: 400"
        ),
    }
}

#[test]
fn test_errors_on_unnecessary_weights() {
    let data = abeezee(&["400", "variable"], &["normal", "italic"]);
    let mut args = arguments();
    args.weight = Some(OneOrManyStrings::Many(strings(&["400", "variable"])));
    let req = request("ABeeZee", args);
    match options_from_request(req, &data) {
        Ok(_) => panic!(),
        Err(err) => assert_eq!(
            message(&err),
            "Unexpected `variable` in weight array for font ABeeZee. You only need `variable`, \
             it includes all available weights."
        ),
    }
}

#[test]
fn test_errors_on_unvavailable_weights() {
    let data = abeezee(&["400", "variable"], &["normal", "italic"]);
    let mut args = arguments();
    args.weight = Some(OneOrManyStrings::Many(strings(&["200"])));
    let req = request("ABeeZee", args);
    match options_from_request(req, &data) {
        Ok(_) => panic!(),
        Err(err) => assert_eq!(
            message(&err),
            "Unknown weight 200 for font ABeeZee.\nAvailable weights: 400, variable"
        ),
    }
}

#[test]
fn test_defaults_to_only_style_when_one_available() {
    let data = abeezee(&["400", "variable"], &["italic"]);
    let mut args = arguments();
    args.weight = Some(OneOrManyStrings::Many(strings(&["400"])));
    let req = request("ABeeZee", args);
    let options = options_from_request(req, &data).unwrap();
    assert_eq!(styles_of(&options), strings(&["italic"]));
}

#[test]
fn test_defaults_to_normal_style_when_multiple() {
    let data = abeezee(&["400", "variable"], &["normal", "italic"]);
    let mut args = arguments();
    args.weight = Some(OneOrManyStrings::Many(strings(&["400"])));
    let req = request("ABeeZee", args);
    let options = options_from_request(req, &data).unwrap();
    assert_eq!(styles_of(&options), strings(&["normal"]));
}

#[test]
fn test_errors_on_unknown_styles() {
    let data = abeezee(&["400", "variable"], &["normal", "italic"]);
    let mut args = arguments();
    args.weight = Some(OneOrManyStrings::Many(strings(&["400"])));
    args.style = Some(OneOrManyStrings::Many(strings(&["foo"])));
    let req = request("ABeeZee", args);
    match options_from_request(req, &data) {
        Ok(_) => panic!(),
        Err(err) => assert_eq!(
            message(&err),
            "Unknown style foo for font ABeeZee.\nAvailable styles: normal, italic"
        ),
    }
}

#[test]
fn test_errors_on_unknown_display() {
    let data = abeezee(&["400", "variable"], &["normal", "italic"]);
    let mut args = arguments();
    args.weight = Some(OneOrManyStrings::Many(strings(&["400"])));
    args.display = Some("foo".to_string());
    let req = request("ABeeZee", args);
    match options_from_request(req, &data) {
        Ok(_) => panic!(),
        Err(err) => assert_eq!(
            message(&err),
            "Invalid display value foo for font ABeeZee.\nAvailable display values: auto, \
             block, swap, fallback, optional"
        ),
    }
}

#[test]
fn test_errors_on_axes_without_variable() {
    let data = abeezee(&["400", "variable"], &["normal", "italic"]);
    let mut args = arguments();
    args.weight = Some(OneOrManyStrings::Many(strings(&["400"])));
    args.axes = Some(strings(&["wght"]));
    let req = request("ABeeZee", args);
    match options_from_request(req, &data) {
        Ok(_) => panic!(),
        Err(err) => assert_eq!(message(&err), "Axes can only be defined for variable fonts"),
    }
}

#[test]
fn test_underscores_become_spaces_in_family() {
    let mut data = IndexMap::new();
    data.insert(
        "Libre Franklin".to_string(),
        FontDataEntry {
            weights: strings(&["variable"]),
            styles: strings(&["normal"]),
        },
    );
    let req = request("Libre_Franklin", arguments());
    let options = options_from_request(req, &data).unwrap();
    assert_eq!(options.font_family, "Libre Franklin");
}

#[test]
fn test_one_weight_as_single_string() {
    let data = abeezee(&["400", "variable"], &["normal", "italic"]);
    let mut args = arguments();
    args.weight = Some(OneOrManyStrings::One("400".to_string()));
    args.display = Some("swap".to_string());
    let req = request("ABeeZee", args);
    let options = options_from_request(req, &data).unwrap();
    match &options.weights {
        FontWeights::Fixed(set) => {
            let members: Vec<String> = set.iter().cloned().collect();
            assert_eq!(members, strings(&["400"]));
        }
        FontWeights::Variable => panic!(),
    }
    assert_eq!(options.display, "swap");
    assert!(!options.preload);
}

#[test]
fn test_duplicate_weights_are_deduplicated() {
    let data = abeezee(&["400", "700", "variable"], &["normal"]);
    let mut args = arguments();
    args.weight = Some(OneOrManyStrings::Many(strings(&["400", "700", "400"])));
    let req = request("ABeeZee", args);
    let options = options_from_request(req, &data).unwrap();
    match &options.weights {
        FontWeights::Fixed(set) => {
            let members: Vec<String> = set.iter().cloned().collect();
            assert_eq!(members, strings(&["400", "700"]));
        }
        FontWeights::Variable => panic!(),
    }
}

#[test]
fn test_string_set_wrappers_round_trip() {
    let mut set = string_set_new();
    assert_eq!(string_set_len(&set), 0);
    assert!(string_set_insert(&mut set, "a".to_string()));
    assert!(string_set_insert(&mut set, "b".to_string()));
    assert!(!string_set_insert(&mut set, "a".to_string()));
    assert_eq!(string_set_len(&set), 2);
    assert!(string_set_contains(&set, "a"));
    assert!(!string_set_contains(&set, "c"));
    assert_eq!(string_set_to_vec(&set), strings(&["a", "b"]));
}
