use scad_sweep::profile::{CompiledProfile, Profile, Settings};
use scad_sweep::scalar::Scalar;

fn num(t: &str) -> Scalar {
    Scalar::Number(String::from(t))
}

fn text(t: &str) -> Scalar {
    Scalar::Str(String::from(t))
}

fn metric_bolts_settings(params: Vec<(String, Vec<Scalar>)>) -> Settings {
    let profile = Profile::new(
        String::from("./label.scad"),
        String::from("drawLabel"),
        params,
    );
    Settings::new(vec![(String::from("metric_bolts"), profile)])
}

fn render(profile: &CompiledProfile) -> String {
    let mut buf = String::new();
    profile.write_script(&mut buf);
    buf
}

#[test]
fn it_compiles_options() {
    // parameters in the key order of the parsed configuration
    let settings = metric_bolts_settings(vec![
        (String::from("head_type"), vec![text("hex"), text("philips")]),
        (String::from("length"), vec![num("8"), num("12")]),
        (String::from("width"), vec![num("2")]),
    ]);
    let expected = vec![
        vec![num("2"), num("8"), text("hex")],
        vec![num("2"), num("8"), text("philips")],
        vec![num("2"), num("12"), text("hex")],
        vec![num("2"), num("12"), text("philips")],
    ];

    let profiles = settings.compile_profiles();
    let metric_bolts = &profiles
        .iter()
        .find(|(name, _)| name == "metric_bolts")
        .unwrap()
        .1;

    assert_eq!(expected.len(), metric_bolts.len());

    for profile in profiles.iter().flat_map(|(_, ps)| ps.iter()) {
        assert_eq!("metric_bolts", profile.name());
        assert_eq!("./label.scad", profile.script_path());
        assert_eq!("drawLabel", profile.module_name());
    }
}

#[test]
fn it_writes_openscad_template() {
    let profile = CompiledProfile::new(
        String::from("metric_bolts"),
        String::from("./label.scad"),
        String::from("drawLabel"),
        vec![
            String::from("width"),
            String::from("length"),
            String::from("head_type"),
            String::from("cs"),
        ],
        vec![num("2"), num("8"), text("hex"), Scalar::Bool(true)],
    );
    let excted_str = "include <./label.scad>\ndrawLabel(width=2, length=8, head_type=\"hex\", cs=true);";

    let actual = render(&profile);
    assert_eq!(excted_str, actual);
}

#[test]
fn expansion_yields_exactly_the_cross_product() {
    let settings = metric_bolts_settings(vec![
        (String::from("width"), vec![num("2")]),
        (String::from("length"), vec![num("8"), num("12")]),
        (String::from("head_type"), vec![text("hex"), text("philips")]),
    ]);
    let profiles = settings.compile_profiles();
    assert_eq!(profiles.len(), 1);
    assert_eq!(profiles[0].0, "metric_bolts");
    let rows: Vec<Vec<Scalar>> = profiles[0].1.iter().map(|p| p.params().to_vec()).collect();
    assert_eq!(
        rows,
        vec![
            vec![num("2"), num("8"), text("hex")],
            vec![num("2"), num("8"), text("philips")],
            vec![num("2"), num("12"), text("hex")],
            vec![num("2"), num("12"), text("philips")],
        ]
    );
    for p in profiles[0].1.iter() {
        assert_eq!(p.param_keys().to_vec(), vec!["width", "length", "head_type"]);
        assert_eq!(p.script_path(), "./label.scad");
        assert_eq!(p.module_name(), "drawLabel");
    }
}

#[test]
fn cardinality_is_the_product_of_lengths() {
    let settings = metric_bolts_settings(vec![
        (String::from("a"), vec![num("1"), num("2"), num("3")]),
        (String::from("b"), vec![Scalar::Bool(true), Scalar::Bool(false)]),
        (String::from("c"), vec![text("x"), text("y"), text("z"), text("w")]),
    ]);
    let profiles = settings.compile_profiles();
    assert_eq!(profiles[0].1.len(), 24);
}

#[test]
fn zero_parameters_give_one_empty_assignment() {
    let settings = metric_bolts_settings(vec![]);
    let profiles = settings.compile_profiles();
    assert_eq!(profiles[0].1.len(), 1);
    assert!(profiles[0].1[0].params().is_empty());
    assert!(profiles[0].1[0].param_keys().is_empty());
    assert_eq!(render(&profiles[0].1[0]), "include <./label.scad>\ndrawLabel();");
}

#[test]
fn an_empty_candidate_list_gives_no_assignment() {
    let settings = metric_bolts_settings(vec![
        (String::from("width"), vec![num("2"), num("3")]),
        (String::from("length"), vec![]),
        (String::from("head_type"), vec![text("hex")]),
    ]);
    let profiles = settings.compile_profiles();
    assert_eq!(profiles.len(), 1);
    assert_eq!(profiles[0].1.len(), 0);
}

#[test]
fn repeated_values_collapse_to_one_assignment() {
    let settings = metric_bolts_settings(vec![
        (String::from("width"), vec![num("2"), num("2")]),
        (String::from("head_type"), vec![text("hex"), text("philips"), text("hex")]),
    ]);
    let profiles = settings.compile_profiles();
    let rows: Vec<Vec<Scalar>> = profiles[0].1.iter().map(|p| p.params().to_vec()).collect();
    assert_eq!(
        rows,
        vec![vec![num("2"), text("hex")], vec![num("2"), text("philips")]]
    );
}

#[test]
fn each_profile_keeps_its_name_and_order() {
    let a = Profile::new(String::from("a.scad"), String::from("A"), vec![]);
    let b = Profile::new(
        String::from("b.scad"),
        String::from("B"),
        vec![(String::from("k"), vec![num("1"), num("2")])],
    );
    let settings = Settings::new(vec![(String::from("first"), a), (String::from("second"), b)]);
    let profiles = settings.compile_profiles();
    assert_eq!(profiles.len(), 2);
    assert_eq!(profiles[0].0, "first");
    assert_eq!(profiles[0].1.len(), 1);
    assert_eq!(profiles[1].0, "second");
    assert_eq!(profiles[1].1.len(), 2);
    assert_eq!(profiles[1].1[1].name(), "second");
    assert_eq!(profiles[1].1[1].module_name(), "B");
}

#[test]
fn rendering_twice_gives_identical_text() {
    let profile = CompiledProfile::new(
        String::from("p"),
        String::from("lib/x.scad"),
        String::from("make"),
        vec![String::from("flag"), String::from("size")],
        vec![Scalar::Bool(false), num("2.5")],
    );
    let first = render(&profile);
    let second = render(&profile);
    assert_eq!(first, second);
    assert_eq!(first, "include <lib/x.scad>\nmake(flag=false, size=2.5);");
}

#[test]
fn write_script_appends_to_what_is_there() {
    let profile = CompiledProfile::new(
        String::from("p"),
        String::from("s.scad"),
        String::from("m"),
        vec![String::from("n")],
        vec![num("7")],
    );
    let mut buf = String::from("// header\n");
    profile.write_script(&mut buf);
    assert_eq!(buf, "// header\ninclude <s.scad>\nm(n=7);");
}

#[test]
fn strings_are_written_as_escaped_literals() {
    assert_eq!(text("hex").literal_text(), "\"hex\"");
    assert_eq!(text("a\"b").literal_text(), "\"a\\\"b\"");
    assert_eq!(Scalar::Bool(true).literal_text(), "true");
    assert_eq!(Scalar::Bool(false).literal_text(), "false");
    assert_eq!(num("-3").literal_text(), "-3");
}

#[test]
fn scalars_compare_by_kind_and_content() {
    assert!(num("2") == num("2"));
    assert!(num("2") != text("2"));
    assert!(num("2") != num("2.0"));
    assert!(Scalar::Bool(true) != Scalar::Bool(false));
    assert!(text("hex").same(&text("hex")));
}

#[test]
fn output_filename_joins_the_literals() {
    let profile = CompiledProfile::new(
        String::from("metric_bolts"),
        String::from("./label.scad"),
        String::from("drawLabel"),
        vec![String::from("width"), String::from("length"), String::from("head_type")],
        vec![num("2"), num("8"), text("hex")],
    );
    assert_eq!(profile.output_filename(), "2_8_\"hex\".3mf");
}

#[test]
fn output_filename_cuts_at_the_last_dot() {
    let profile = CompiledProfile::new(
        String::from("metric_bolts"),
        String::from("./label.scad"),
        String::from("drawLabel"),
        vec![String::from("width"), String::from("cs")],
        vec![num("2.5"), Scalar::Bool(true)],
    );
    assert_eq!(profile.output_filename(), "2.3mf");
}

#[test]
fn output_filename_keeps_a_separator_in_a_value() {
    let profile = CompiledProfile::new(
        String::from("p"),
        String::from("s.scad"),
        String::from("m"),
        vec![String::from("dir")],
        vec![text("a/b")],
    );
    assert_eq!(profile.output_filename(), "\"a/b\".3mf");
}

#[test]
fn output_filename_of_no_values_is_empty() {
    let profile = CompiledProfile::new(
        String::from("p"),
        String::from("s.scad"),
        String::from("m"),
        vec![],
        vec![],
    );
    assert_eq!(profile.output_filename(), "");
}

#[test]
fn control_characters_are_escaped() {
    assert_eq!(text("a\nb").literal_text(), "\"a\\nb\"");
    assert_eq!(text("\u{1}").literal_text(), "\"\\u0001\"");
    assert_eq!(text("x\\y").literal_text(), "\"x\\\\y\"");
}

#[test]
fn numbers_are_admitted_by_their_literal() {
    assert_eq!(Scalar::number(String::from("2")), Some(num("2")));
    assert_eq!(Scalar::number(String::from("-0.5e+3")), Some(num("-0.5e+3")));
    assert_eq!(Scalar::number(String::from("2.5")), Some(num("2.5")));
    assert_eq!(Scalar::number(String::from("1E9")), Some(num("1E9")));
    assert_eq!(Scalar::number(String::from("")), None);
    assert_eq!(Scalar::number(String::from("01")), None);
    assert_eq!(Scalar::number(String::from("2.")), None);
    assert_eq!(Scalar::number(String::from("a/b")), None);
    assert_eq!(Scalar::number(String::from("-")), None);
    assert_eq!(Scalar::number(String::from("1e")), None);
}
