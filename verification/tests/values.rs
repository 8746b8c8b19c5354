use fontconfig_parser::entries::{name_comes_first, order_entries};
use fontconfig_parser::paths::{join, parent, resolve};
use fontconfig_parser::text::{
    bool_text, bytes_are, bytes_eq, int_text, is_double_literal, parse_bool, parse_int, text_eq,
};
use fontconfig_parser::{
    Alias, CacheDir, Config, ConfigPart, Constant, ConstantFamily, Dir, DirData, DirEntry,
    DirPrefix, Document, Double, EntryKind, Error, Expression, FontConfig, Include, ListOp, Match,
    MatchTarget, PropertyKind, PropertyTarget, RemapDir, RemapDirData, SelectFont, Value,
    ValueType,
};

#[test]
fn integers_are_read() {
    assert_eq!(parse_int("0"), Some(0));
    assert_eq!(parse_int("007"), Some(7));
    assert_eq!(parse_int("+42"), Some(42));
    assert_eq!(parse_int("4294967295"), Some(4294967295));
    assert_eq!(parse_int("4294967296"), None);
    assert_eq!(parse_int("99999999999999999999999999"), None);
    assert_eq!(parse_int(""), None);
    assert_eq!(parse_int("+"), None);
    assert_eq!(parse_int("-1"), None);
    assert_eq!(parse_int("++1"), None);
    assert_eq!(parse_int("1+"), None);
    assert_eq!(parse_int(" 1"), None);
    assert_eq!(parse_int("1 "), None);
    assert_eq!(parse_int("1a"), None);
    assert_eq!(parse_int("١٢"), None);
    assert_eq!(parse_int("0x10"), None);
}

#[test]
fn integers_are_read_as_the_standard_library_reads_them() {
    for text in ["0", "+0", "12", "+", "", "-0", "4294967295", "4294967296", "00000000000001", "1_0", "٣"] {
        assert_eq!(parse_int(text), text.parse::<u32>().ok(), "{:?}", text);
    }
}

#[test]
fn integers_are_written_in_decimal() {
    assert_eq!(int_text(0), "0");
    assert_eq!(int_text(9), "9");
    assert_eq!(int_text(10), "10");
    assert_eq!(int_text(1234567890), "1234567890");
    assert_eq!(int_text(u32::MAX), "4294967295");
}

#[test]
fn integers_written_and_read_back_are_the_same() {
    for n in [0u32, 1, 9, 10, 99, 100, 65535, 65536, 1000000007, u32::MAX - 1, u32::MAX] {
        assert_eq!(parse_int(&int_text(n)), Some(n));
    }
}

#[test]
fn booleans_are_read_and_written() {
    assert_eq!(parse_bool("true"), Some(true));
    assert_eq!(parse_bool("false"), Some(false));
    assert_eq!(parse_bool("True"), None);
    assert_eq!(parse_bool("yes"), None);
    assert_eq!(parse_bool(""), None);
    assert_eq!(parse_bool("true "), None);
    assert_eq!(bool_text(true), "true");
    assert_eq!(bool_text(false), "false");
    assert_eq!(parse_bool(bool_text(true)), Some(true));
    assert_eq!(parse_bool(bool_text(false)), Some(false));
}

#[test]
fn floating_point_literals_are_told_from_other_text() {
    for text in [
        "0", "1", "-1", "+1", "1.", ".5", "1.5", "-.5e10", "1e5", "1E5", "1e+5", "1e-5", "12.34e56",
        "inf", "-inf", "+inf", "Infinity", "INFINITY", "nan", "NaN", "-nan", "00.00", "5.e3",
    ] {
        assert!(is_double_literal(text), "{:?}", text);
    }
    for text in [
        "", "+", "-", ".", "e5", ".e5", "1e", "1e+", "1.2.3", "1 ", " 1", "1e5.5", "--1", "+-1",
        "in", "infinit", "infinityy", "na", "nann", "1f", "0x10", "1,5", "١", "1e٥", "é",
    ] {
        assert!(!is_double_literal(text), "{:?}", text);
    }
}

#[test]
fn floating_point_literals_are_those_of_the_standard_library() {
    for text in [
        "0", "1.", ".5", "-.5e10", "1e5", "inf", "-Infinity", "nAn", "+nan", "", ".", "e", "1e",
        "1e+", "+.e1", "1.2.3", "infinit", "1_0", "0x1p3", " 1", "1\n", "+inf", "٣.٥",
    ] {
        assert_eq!(is_double_literal(text), text.parse::<f64>().is_ok(), "{:?}", text);
    }
}

#[test]
fn floating_point_literal_keeps_its_text() {
    let d = Double::from_text("-12.50e+3").unwrap();
    assert_eq!(d.as_str(), "-12.50e+3");
    assert_eq!(d.as_str().parse::<f64>().unwrap(), -12500.0);
    assert_eq!(Double::from_text(d.as_str()).unwrap(), d);
    assert_eq!(d.clone(), d);
    match Double::from_text("12,5") {
        Err(Error::ParseFloatError(text)) => assert_eq!(text, "12,5"),
        other => panic!("unexpected result {:?}", other),
    }
}

#[test]
fn literals_written_and_read_back_are_the_same() {
    let literals = vec![
        ("string", Value::String("a <b> &amp; c".to_string())),
        ("string", Value::String(" ".to_string())),
        ("double", Value::Double(Double::from_text("-0.25e-3").unwrap())),
        ("int", Value::Int(4000000000)),
        ("bool", Value::Bool(true)),
        ("bool", Value::Bool(false)),
    ];
    for (element, value) in literals {
        let text = value.literal_text().unwrap();
        let escaped = text.replace('&', "&amp;").replace('<', "&lt;").replace('>', "&gt;");
        let kind = match &value {
            Value::String(_) => "family",
            Value::Double(_) => "size",
            Value::Int(_) => "index",
            _ => "hinting",
        };
        let document = fontconfig_parser::parse_document_text(&format!(
            "<fontconfig><match><test name=\"{}\"><{}>{}</{}></test></match></fontconfig>",
            kind, element, escaped, element
        ))
        .unwrap();
        assert_eq!(document.matches[0].tests[0].value.value, Expression::Simple(value));
    }
    assert_eq!(Value::Constant(Constant::Bold).literal_text(), None);
    assert_eq!(
        Value::Property(PropertyTarget::Default, PropertyKind::Family).literal_text(),
        None
    );
}

#[test]
fn text_and_bytes_are_compared() {
    assert!(text_eq("", ""));
    assert!(text_eq("fonts", "fonts"));
    assert!(!text_eq("fonts", "font"));
    assert!(!text_eq("fonts", "Fonts"));
    assert!(text_eq("é", "é"));
    assert!(!text_eq("é", "e"));
    assert!(bytes_eq(b"abc", b"abc"));
    assert!(!bytes_eq(b"abc", b"abd"));
    assert!(bytes_are(b"dir", "dir"));
    assert!(!bytes_are(b"dir", "dirs"));
    assert!(bytes_are("é".as_bytes(), "é"));
}

#[test]
fn every_kind_is_known_by_its_name() {
    assert_eq!(PropertyKind::from_text("family").unwrap(), PropertyKind::Family);
    assert_eq!(PropertyKind::from_text("pixelsize").unwrap(), PropertyKind::PixelSize);
    assert_eq!(PropertyKind::from_text("lcdfilter").unwrap(), PropertyKind::LcdFilter);
    assert_eq!(PropertyKind::from_text("order").unwrap(), PropertyKind::Order);
    match PropertyKind::from_text("Family") {
        Err(Error::ParseError(text)) => assert_eq!(text, "Family"),
        other => panic!("unexpected result {:?}", other),
    }
    assert_eq!(PropertyKind::Family.expected_type(), ValueType::Text);
    assert_eq!(PropertyKind::Size.expected_type(), ValueType::Double);
    assert_eq!(PropertyKind::Weight.expected_type(), ValueType::Int);
    assert_eq!(PropertyKind::Hinting.expected_type(), ValueType::Bool);
    assert_eq!(PropertyKind::Matrix.expected_type(), ValueType::Matrix);
    assert_eq!(PropertyKind::Weight.expected_family(), Some(ConstantFamily::Weight));
    assert_eq!(PropertyKind::Index.expected_family(), None);
    assert_eq!(PropertyKind::Family.expected_family(), None);
}

#[test]
fn constants_belong_to_their_families() {
    assert_eq!(Constant::from_text("bold").unwrap(), Constant::Bold);
    assert_eq!(Constant::from_text("none").unwrap(), Constant::NoRgba);
    assert!(Constant::Bold.belongs_to(ConstantFamily::Weight));
    assert!(!Constant::Bold.belongs_to(ConstantFamily::Slant));
    assert!(Constant::Italic.belongs_to(ConstantFamily::Slant));
    assert!(Constant::Normal.belongs_to(ConstantFamily::Weight));
    assert!(Constant::Normal.belongs_to(ConstantFamily::Width));
    assert!(!Constant::Normal.belongs_to(ConstantFamily::Slant));
    assert!(Constant::Hintfull.belongs_to(ConstantFamily::HintStyle));
    assert!(Constant::Lcdlight.belongs_to(ConstantFamily::LcdFilter));
    assert!(Constant::Vrgb.belongs_to(ConstantFamily::Rgba));
    assert!(Constant::Charcell.belongs_to(ConstantFamily::Spacing));
    assert!(Constant::Expanded.belongs_to(ConstantFamily::Width));
}

#[test]
fn property_is_made_of_a_value_of_its_type() {
    let made = PropertyKind::Family
        .make_property(Expression::Simple(Value::String("Sans".to_string())))
        .unwrap();
    assert_eq!(made.kind, PropertyKind::Family);
    assert_eq!(made.value, Expression::Simple(Value::String("Sans".to_string())));
    let made = PropertyKind::Weight.make_property(Expression::Simple(Value::Int(80))).unwrap();
    assert_eq!(made.value, Expression::Simple(Value::Int(80)));
    let made = PropertyKind::Weight
        .make_property(Expression::Simple(Value::Constant(Constant::Bold)))
        .unwrap();
    assert_eq!(made.kind, PropertyKind::Weight);
    assert_eq!(made.value, Expression::Simple(Value::Constant(Constant::Bold)));
    let made = PropertyKind::Size
        .make_property(Expression::Simple(Value::Property(
            PropertyTarget::Pattern,
            PropertyKind::PixelSize,
        )))
        .unwrap();
    assert_eq!(made.kind, PropertyKind::Size);
    let made = PropertyKind::Family
        .make_property(Expression::List(ListOp::Plus, vec![Expression::Simple(Value::Int(1))]))
        .unwrap();
    assert_eq!(made.kind, PropertyKind::Family);
}

#[test]
fn property_is_not_made_of_a_value_of_another_type() {
    match PropertyKind::Size.make_property(Expression::Simple(Value::Int(12))) {
        Err(Error::PropertyConvertError(kind, value)) => {
            assert_eq!(kind, PropertyKind::Size);
            assert_eq!(value, Expression::Simple(Value::Int(12)));
        }
        other => panic!("unexpected result {:?}", other),
    }
    match PropertyKind::Weight
        .make_property(Expression::Simple(Value::Double(Double::from_text("80.0").unwrap())))
    {
        Err(Error::PropertyConvertError(kind, _)) => assert_eq!(kind, PropertyKind::Weight),
        other => panic!("unexpected result {:?}", other),
    }
    match PropertyKind::Hinting.make_property(Expression::Simple(Value::String("true".to_string()))) {
        Err(Error::PropertyConvertError(kind, _)) => assert_eq!(kind, PropertyKind::Hinting),
        other => panic!("unexpected result {:?}", other),
    }
    match PropertyKind::Family.make_property(Expression::Simple(Value::Property(
        PropertyTarget::Font,
        PropertyKind::Weight,
    ))) {
        Err(Error::PropertyConvertError(kind, _)) => assert_eq!(kind, PropertyKind::Family),
        other => panic!("unexpected result {:?}", other),
    }
    match PropertyKind::Family.make_property(Expression::Simple(Value::Constant(Constant::Bold))) {
        Err(Error::PropertyConvertError(kind, value)) => {
            assert_eq!(kind, PropertyKind::Family);
            assert_eq!(value, Expression::Simple(Value::Constant(Constant::Bold)));
        }
        other => panic!("unexpected result {:?}", other),
    }
}

#[test]
fn constant_of_another_family_is_refused_by_name() {
    match PropertyKind::HintStyle.make_property(Expression::Simple(Value::Constant(Constant::Italic)))
    {
        Err(Error::ConstantPropertyError(kind, constant)) => {
            assert_eq!(kind, PropertyKind::HintStyle);
            assert_eq!(constant, Constant::Italic);
        }
        other => panic!("unexpected result {:?}", other),
    }
}

#[test]
fn every_pair_of_kind_and_literal_gives_a_property_or_a_conversion_error() {
    let kinds = [
        PropertyKind::Family,
        PropertyKind::Size,
        PropertyKind::Weight,
        PropertyKind::Index,
        PropertyKind::Hinting,
        PropertyKind::Matrix,
        PropertyKind::Rgba,
    ];
    for kind in kinds {
        let values = vec![
            Value::String("x".to_string()),
            Value::Double(Double::from_text("1").unwrap()),
            Value::Int(1),
            Value::Bool(true),
            Value::Constant(Constant::Rgb),
            Value::Constant(Constant::Thin),
            Value::Property(PropertyTarget::Default, PropertyKind::Family),
        ];
        for value in values {
            let expected = match &value {
                Value::String(_) => kind.expected_type() == ValueType::Text,
                Value::Double(_) => kind.expected_type() == ValueType::Double,
                Value::Int(_) => kind.expected_type() == ValueType::Int,
                Value::Bool(_) => kind.expected_type() == ValueType::Bool,
                Value::Constant(c) => match kind.expected_family() {
                    Some(family) => c.belongs_to(family),
                    None => false,
                },
                Value::Property(_, other) => other.expected_type() == kind.expected_type(),
            };
            assert_eq!(kind.takes(&Expression::Simple(value.clone())), expected);
            match kind.make_property(Expression::Simple(value.clone())) {
                Ok(property) => {
                    assert!(expected);
                    assert_eq!(property.kind, kind);
                    assert_eq!(property.value, Expression::Simple(value));
                }
                Err(Error::PropertyConvertError(k, v)) => {
                    assert!(!expected);
                    assert_eq!(k, kind);
                    assert_eq!(v, Expression::Simple(value));
                }
                Err(Error::ConstantPropertyError(k, c)) => {
                    assert!(!expected);
                    assert_eq!(k, kind);
                    assert_eq!(Value::Constant(c), value);
                    assert!(kind.expected_family().is_some());
                }
                Err(other) => panic!("unexpected error {:?}", other),
            }
        }
    }
}

#[test]
fn paths_are_joined() {
    assert_eq!(join("/etc/fonts", "conf.d"), "/etc/fonts/conf.d");
    assert_eq!(join("/etc/fonts/", "conf.d"), "/etc/fonts/conf.d");
    assert_eq!(join("/etc/fonts", "/usr/share"), "/usr/share");
    assert_eq!(join("", "conf.d"), "conf.d");
    assert_eq!(join("/", "etc"), "/etc");
    assert_eq!(join(".", "a/b"), "./a/b");
    assert_eq!(join("/etc", ""), "/etc/");
    assert_eq!(join("répertoire", "é"), "répertoire/é");
}

#[test]
fn parent_is_the_text_before_the_last_slash() {
    assert_eq!(parent("/etc/fonts/fonts.conf"), "/etc/fonts");
    assert_eq!(parent("/fonts.conf"), "/");
    assert_eq!(parent("fonts.conf"), "");
    assert_eq!(parent("conf/fonts.conf"), "conf");
    assert_eq!(parent("/etc/fonts/"), "/etc/fonts");
    assert_eq!(parent(""), "");
    assert_eq!(parent("/"), "/");
    assert_eq!(parent("é/è"), "é");
}

#[test]
fn paths_are_resolved_by_their_prefix() {
    let file = "/etc/fonts/fonts.conf";
    let xdg = "/home/me/.local/share";
    assert_eq!(resolve(DirPrefix::Default, "fonts", file, xdg), "/etc/fonts/fonts");
    assert_eq!(resolve(DirPrefix::Cwd, "fonts", file, xdg), "./fonts");
    assert_eq!(resolve(DirPrefix::Xdg, "fonts", file, xdg), "/home/me/.local/share/fonts");
    assert_eq!(resolve(DirPrefix::Relative, "fonts", file, xdg), "fonts");
    for prefix in [DirPrefix::Default, DirPrefix::Cwd, DirPrefix::Xdg, DirPrefix::Relative] {
        assert_eq!(resolve(prefix, "/usr/share/fonts", file, xdg), "/usr/share/fonts");
    }
    assert_eq!(resolve(DirPrefix::Default, "fonts", "fonts.conf", xdg), "fonts");
    assert_eq!(resolve(DirPrefix::Xdg, "fonts", file, ""), "fonts");
}

#[test]
fn declarations_resolve_their_own_paths() {
    let file = "/etc/fonts/conf.d/10-x.conf";
    let xdg = "/data";
    let dir = Dir { prefix: DirPrefix::Xdg, salt: String::new(), path: "f".to_string() };
    assert_eq!(dir.calculate_path(file, xdg), "/data/f");
    let cache = CacheDir { prefix: DirPrefix::Default, path: "c".to_string() };
    assert_eq!(cache.calculate_path(file, xdg), "/etc/fonts/conf.d/c");
    let inc = Include { prefix: DirPrefix::Cwd, ignore_missing: false, path: "i".to_string() };
    assert_eq!(inc.calculate_path(file, xdg), "./i");
    let remap = RemapDir {
        prefix: DirPrefix::Relative,
        as_path: "/a".to_string(),
        salt: String::new(),
        path: "r".to_string(),
    };
    assert_eq!(remap.calculate_path(file, xdg), "r");
}

#[test]
fn names_are_ordered_by_their_bytes() {
    assert!(name_comes_first("", ""));
    assert!(name_comes_first("", "a"));
    assert!(!name_comes_first("a", ""));
    assert!(name_comes_first("05-b.conf", "10-a.conf"));
    assert!(!name_comes_first("10-a.conf", "05-b.conf"));
    assert!(name_comes_first("a", "a"));
    assert!(name_comes_first("a", "ab"));
    assert!(!name_comes_first("ab", "a"));
    assert!(name_comes_first("Z", "a"));
    assert!(name_comes_first("z", "é"));
    for (a, b) in [("10", "9"), ("a.conf", "a-conf"), ("é", "è"), ("x", "x")] {
        assert_eq!(name_comes_first(a, b), a <= b);
    }
}

#[test]
fn entries_are_ordered_by_name_whatever_their_order() {
    let entry = |name: &str, kind: EntryKind| DirEntry { name: name.to_string(), kind };
    let listed = vec![
        entry("30-c.conf", EntryKind::File),
        entry("sub", EntryKind::Dir),
        entry("10-a.conf", EntryKind::Symlink),
        entry("socket", EntryKind::Other),
        entry("20-b.conf", EntryKind::File),
        entry("10-a.conf", EntryKind::File),
    ];
    let expected = vec!["10-a.conf", "10-a.conf", "20-b.conf", "30-c.conf"];
    assert_eq!(order_entries(&listed), expected);
    let mut reversed = listed.clone();
    reversed.reverse();
    assert_eq!(order_entries(&reversed), expected);
    assert_eq!(order_entries(&vec![]), Vec::<String>::new());
}

#[test]
fn parts_and_expressions_are_made_from_what_they_hold() {
    let dir = Dir { prefix: DirPrefix::Default, salt: String::new(), path: "a".to_string() };
    assert_eq!(ConfigPart::from(dir.clone()), ConfigPart::Dir(dir));
    let cache = CacheDir { prefix: DirPrefix::Xdg, path: "c".to_string() };
    assert_eq!(ConfigPart::from(cache.clone()), ConfigPart::CacheDir(cache));
    let wanted = Include { prefix: DirPrefix::Default, ignore_missing: true, path: "i".to_string() };
    assert_eq!(ConfigPart::from(wanted.clone()), ConfigPart::Include(wanted));
    let remap = RemapDir {
        prefix: DirPrefix::Default,
        as_path: "x".to_string(),
        salt: String::new(),
        path: "y".to_string(),
    };
    assert_eq!(ConfigPart::from(remap.clone()), ConfigPart::RemapDir(remap));
    let rule = Match { target: MatchTarget::Font, tests: vec![], edits: vec![] };
    assert_eq!(ConfigPart::from(rule.clone()), ConfigPart::Match(rule));
    let config = Config::default();
    assert_eq!(ConfigPart::from(config.clone()), ConfigPart::Config(config));
    let alias =
        Alias { alias: "a".to_string(), prefer: vec![], accept: vec![], default: vec![] };
    assert_eq!(ConfigPart::from(alias.clone()), ConfigPart::Alias(alias));
    let selection = SelectFont { rejects: vec![], accepts: vec![] };
    assert_eq!(ConfigPart::from(selection.clone()), ConfigPart::SelectFont(selection));
    assert_eq!(Expression::from(Value::Int(3)), Expression::Simple(Value::Int(3)));
    let nested = Expression::List(
        ListOp::Or,
        vec![
            Expression::Simple(Value::Bool(true)),
            Expression::Matrix(
                Box::new(Value::Int(1).into()),
                Box::new(Value::Int(2).into()),
                Box::new(Value::Int(3).into()),
                Box::new(Value::String("x".to_string()).into()),
            ),
        ],
    );
    assert_eq!(nested.clone(), nested);
}

#[test]
fn empty_values_are_the_defaults() {
    assert_eq!(Document::default(), Document::new());
    assert_eq!(FontConfig::default(), FontConfig::new());
    assert_eq!(Config::default(), Config::new());
    assert_eq!(DirData::default(), DirData { path: String::new(), salt: String::new() });
    assert_eq!(
        RemapDirData::default(),
        RemapDirData { path: String::new(), salt: String::new(), as_path: String::new() }
    );
    assert!(FontConfig::new().dirs.is_empty());
    assert!(Document::new().description.is_empty());
}

#[test]
fn bytes_are_found_where_they_stand() {
    assert!(fontconfig_parser::text::contains_bytes(b"a<!ENTITY b", b"<!ENTITY"));
    assert!(!fontconfig_parser::text::contains_bytes(b"a<!ENTIT", b"<!ENTITY"));
    assert!(fontconfig_parser::text::contains_bytes(b"", b""));
    assert!(fontconfig_parser::text::contains_bytes(b"abc", b""));
    assert!(!fontconfig_parser::text::contains_bytes(b"", b"a"));
    assert!(fontconfig_parser::text::starts_at(b"abc", 1, b"bc"));
    assert!(!fontconfig_parser::text::starts_at(b"abc", 2, b"bc"));
    assert!(!fontconfig_parser::text::starts_at(b"abc", 4, b""));
    assert!(fontconfig_parser::text::starts_at(b"abc", 3, b""));
    assert_eq!(fontconfig_parser::prolog::find_from(b"a-->b-->", 0, b"-->"), Some(1));
    assert_eq!(fontconfig_parser::prolog::find_from(b"a-->b-->", 2, b"-->"), Some(5));
    assert_eq!(fontconfig_parser::prolog::find_from(b"a-->b-->", 6, b"-->"), None);
    assert_eq!(fontconfig_parser::prolog::find_from(b"abc", 3, b""), Some(3));
    assert_eq!(fontconfig_parser::prolog::find_from(b"abc", 4, b""), None);
    assert!(fontconfig_parser::prolog::has_other_doctype("<!DOCTYPE x>"));
    assert!(!fontconfig_parser::prolog::has_other_doctype("<x><!DOCTYPE x></x>"));
    assert!(!fontconfig_parser::prolog::has_other_doctype(
        "<?xml version=\"1.0\"?><!DOCTYPE fontconfig SYSTEM \"urn:fontconfig:fonts.dtd\"><x/>"
    ));
    assert!(!fontconfig_parser::prolog::has_other_doctype("<!-- unterminated <!DOCTYPE x>"));
}
