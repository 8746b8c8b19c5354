use fontconfig_parser::dirs::DirPrefix;
use fontconfig_parser::document_reader::DocumentReader;
use fontconfig_parser::error::Error;
use fontconfig_parser::events::EventReader;
use fontconfig_parser::property::PropertyKind;
use fontconfig_parser::rules::{EditBinding, EditMode, MatchTarget, TestCompare, TestQual, TestTarget};
use fontconfig_parser::value::{Constant, Expression, Value};

const SAMPLE: &str = r#"<?xml version="1.0"?>
<!DOCTYPE fontconfig SYSTEM "urn:fontconfig:fonts.dtd">
<fontconfig>
  <description>Sample &amp; test</description>
  <dir prefix="xdg" salt="s1">fonts</dir>
  <dir>/usr/share/fonts</dir>
  <cachedir prefix="xdg">fontconfig</cachedir>
  <include ignore_missing="yes">conf.d</include>
  <match target="font">
    <test name="family" qual="all" compare="not_eq">
      <string>Helvetica</string>
    </test>
    <edit name="weight" mode="assign_replace" binding="strong">
      <const>bold</const>
    </edit>
  </match>
  <config>
    <rescan><int>30</int></rescan>
  </config>
  <unknown>text</unknown>
</fontconfig>
"#;

#[test]
fn reads_a_whole_document() {
    let mut reader = EventReader::open(SAMPLE).unwrap();
    let doc = DocumentReader::new().read_document(&mut reader).unwrap();
    assert_eq!(doc.description, "Sample & test");
    assert_eq!(doc.dirs.len(), 2);
    assert_eq!(doc.dirs[0].prefix, DirPrefix::Xdg);
    assert_eq!(doc.dirs[0].salt, "s1");
    assert_eq!(doc.dirs[0].path, "fonts");
    assert_eq!(doc.dirs[1].prefix, DirPrefix::Default);
    assert_eq!(doc.dirs[1].salt, "");
    assert_eq!(doc.dirs[1].path, "/usr/share/fonts");
    assert_eq!(doc.cache_dirs.len(), 1);
    assert_eq!(doc.cache_dirs[0].path, "fontconfig");
    assert_eq!(doc.includes.len(), 1);
    assert!(doc.includes[0].ignore_missing);
    assert_eq!(doc.includes[0].path, "conf.d");
    assert_eq!(doc.matches.len(), 1);
    let rule = &doc.matches[0];
    assert_eq!(rule.target, MatchTarget::Font);
    assert_eq!(rule.tests.len(), 1);
    assert_eq!(rule.tests[0].qual, TestQual::All);
    assert_eq!(rule.tests[0].target, TestTarget::Default);
    assert_eq!(rule.tests[0].compare, TestCompare::NotEq);
    assert_eq!(rule.tests[0].value.kind, PropertyKind::Family);
    assert_eq!(
        rule.tests[0].value.value,
        Expression::Simple(Value::String("Helvetica".to_string()))
    );
    assert_eq!(rule.edits.len(), 1);
    assert_eq!(rule.edits[0].mode, EditMode::AssignReplace);
    assert_eq!(rule.edits[0].binding, EditBinding::Strong);
    assert_eq!(rule.edits[0].value.kind, PropertyKind::Weight);
    assert_eq!(
        rule.edits[0].value.value,
        Expression::Simple(Value::Constant(Constant::Bold))
    );
    assert_eq!(doc.config.rescans, vec![30]);
}

#[test]
fn malformed_doctype_gives_no_document() {
    let text = "<!DOCTYPE html><fontconfig><dir>a</dir></fontconfig>";
    let mut reader = EventReader::open(text).unwrap();
    let r = DocumentReader::new().read_document(&mut reader);
    assert!(matches!(r, Err(Error::UnmatchedDocType)));
}

fn read(text: &str) -> Result<fontconfig_parser::Document, Error> {
    let mut reader = EventReader::open(text).unwrap();
    DocumentReader::new().read_document(&mut reader)
}

const SYSTEM_FILE: &str = r#"<?xml version="1.0"?>
<!DOCTYPE fontconfig SYSTEM "urn:fontconfig:fonts.dtd">
<!-- /etc/fonts/fonts.conf file to configure system font access -->
<fontconfig>
	<its:rules xmlns:its="http://www.w3.org/2005/11/its" version="1.0">
		<its:translateRule translate="no" selector="/fontconfig/*[not(self::description)]"/>
	</its:rules>

	<description>Default configuration file</description>

<!-- Font directory list -->

	<dir>/usr/share/fonts</dir>
	<dir>/usr/local/share/fonts</dir>
	<dir prefix="xdg">fonts</dir>
	<!-- the following element will be removed in the future -->
	<dir>~/.fonts</dir>

<!--
  Accept deprecated 'mono' alias, replacing it with 'monospace'
-->
	<match target="pattern">
		<test qual="any" name="family">
			<string>mono</string>
		</test>
		<edit name="family" mode="assign" binding="same">
			<string>monospace</string>
		</edit>
	</match>

<!--
  Load local system customization file
-->
	<include ignore_missing="yes">conf.d</include>

<!-- Font cache directory list -->

	<cachedir>/var/cache/fontconfig</cachedir>
	<cachedir prefix="xdg">fontconfig</cachedir>
	<!-- the following element will be removed in the future -->
	<cachedir>~/.fontconfig</cachedir>

	<config>
<!--
  Rescan configuration every 30 seconds when FcFontSetList is called
 -->
		<rescan>
			<int>30</int>
		</rescan>
	</config>

</fontconfig>
"#;

#[test]
fn it_works() {
    let mut doc_reader = DocumentReader::new();
    let doc = doc_reader
        .read_document(&mut EventReader::open(SYSTEM_FILE).unwrap())
        .unwrap();
    assert_eq!(doc.description, "Default configuration file");
    assert_eq!(doc.dirs.len(), 4);
    assert_eq!(doc.cache_dirs.len(), 3);
    assert_eq!(doc.includes.len(), 1);
    assert_eq!(doc.matches.len(), 1);
    assert_eq!(doc.config.rescans, vec![30]);
}

#[test]
fn reader_may_be_used_again() {
    let mut doc_reader = DocumentReader::new();
    let first = doc_reader.read_document(&mut EventReader::open(SAMPLE).unwrap()).unwrap();
    doc_reader.clear();
    let second = doc_reader.read_document(&mut EventReader::open(SAMPLE).unwrap()).unwrap();
    assert_eq!(first, second);
}

#[test]
fn document_without_root_element_is_no_font_configuration() {
    assert!(matches!(read(""), Err(Error::NoFontconfig)));
    assert!(matches!(read("<!-- only a comment -->"), Err(Error::NoFontconfig)));
    assert!(matches!(read("<?xml version=\"1.0\"?><empty/>"), Err(Error::NoFontconfig)));
    assert!(matches!(read("<other><fontconfig></fontconfig></other>").map(|d| d.dirs.len()), Ok(0)));
}

#[test]
fn doctype_of_font_configurations_is_taken() {
    let doc = read("<!DOCTYPE fontconfig SYSTEM \"urn:fontconfig:fonts.dtd\"><fontconfig><dir>a</dir></fontconfig>").unwrap();
    assert_eq!(doc.dirs.len(), 1);
}

#[test]
fn doctype_after_a_declaration_and_text_is_checked() {
    let r = read("<?xml version=\"1.0\"?>\n<!-- c -->\n<!DOCTYPE fontconfig SYSTEM \"fonts.dtd\">\n<fontconfig><dir>a</dir></fontconfig>");
    assert!(matches!(r, Err(Error::UnmatchedDocType)));
}

#[test]
fn value_that_never_comes_is_an_unexpected_end() {
    match read("<fontconfig><match><test name=\"family\">") {
        Err(Error::UnexpectedEof(what)) => assert_eq!(what, "Expect property"),
        other => panic!("unexpected result {:?}", other),
    }
}

#[test]
fn config_without_end_is_an_unexpected_end() {
    match read("<fontconfig><config><rescan><int>30</int></rescan>") {
        Err(Error::UnexpectedEof(what)) => assert_eq!(what, "Expected config"),
        other => panic!("unexpected result {:?}", other),
    }
}

#[test]
fn rescan_without_integer_is_an_unexpected_end() {
    match read("<fontconfig><config><rescan>") {
        Err(Error::UnexpectedEof(what)) => assert_eq!(what, "Expect int"),
        other => panic!("unexpected result {:?}", other),
    }
}

#[test]
fn rescan_with_another_element_is_a_format_error() {
    assert!(matches!(
        read("<fontconfig><config><rescan><double>30</double></rescan></config></fontconfig>"),
        Err(Error::InvalidFormat)
    ));
}

#[test]
fn element_that_holds_no_value_is_a_format_error() {
    assert!(matches!(
        read("<fontconfig><match><test name=\"family\"><family>a</family></test></match></fontconfig>"),
        Err(Error::InvalidFormat)
    ));
}

#[test]
fn match_is_read_up_to_its_end_tag() {
    let doc = read(
        "<fontconfig><match><test name=\"size\"><double>+1.5e1</double><!-- more --></test><other><int>1</int></other><edit name=\"size\"><double>.5</double></edit></match><dir>after</dir></fontconfig>",
    )
    .unwrap();
    assert_eq!(doc.matches.len(), 1);
    assert_eq!(doc.matches[0].tests.len(), 1);
    assert_eq!(doc.matches[0].edits.len(), 1);
    match &doc.matches[0].tests[0].value.value {
        Expression::Simple(Value::Double(d)) => assert_eq!(d.as_str(), "+1.5e1"),
        other => panic!("unexpected value {:?}", other),
    }
    assert_eq!(doc.dirs.len(), 1);
    assert_eq!(doc.dirs[0].path, "after");
}

#[test]
fn test_is_read_up_to_its_own_end_tag() {
    let doc = read(
        "<fontconfig><match><test name=\"family\"><string>a</string><test><test></test></test></test><edit name=\"family\"><string>b</string></edit></match></fontconfig>",
    )
    .unwrap();
    assert_eq!(doc.matches[0].tests.len(), 1);
    assert_eq!(doc.matches[0].edits.len(), 1);
}

#[test]
fn matrix_holds_four_doubles() {
    let doc = read(
        "<fontconfig><match><edit name=\"matrix\"><matrix><double>1</double> <double>0</double><double>0.25</double><double>1</double></matrix></edit></match></fontconfig>",
    )
    .unwrap();
    match &doc.matches[0].edits[0].value.value {
        Expression::Matrix(a, _, c, _) => {
            match (&**a, &**c) {
                (Expression::Simple(Value::Double(a)), Expression::Simple(Value::Double(c))) => {
                    assert_eq!(a.as_str(), "1");
                    assert_eq!(c.as_str(), "0.25");
                }
                other => panic!("unexpected cells {:?}", other),
            }
        }
        other => panic!("unexpected value {:?}", other),
    }
}

#[test]
fn matrix_with_an_integer_is_a_format_error() {
    assert!(matches!(
        read("<fontconfig><match><edit name=\"matrix\"><matrix><double>1</double><int>0</int></matrix></edit></match></fontconfig>"),
        Err(Error::InvalidFormat)
    ));
}

#[test]
fn literals_of_every_kind_are_read() {
    let doc = read(
        "<fontconfig><match>\
         <test name=\"family\"><string>A &amp; B</string></test>\
         <test name=\"pixelsize\"><double>12.5</double></test>\
         <test name=\"weight\"><int>+80</int></test>\
         <test name=\"antialias\"><bool>false</bool></test>\
         <test name=\"rgba\"><const>none</const></test>\
         <test name=\"width\"><const>normal</const></test>\
         <test name=\"weight\"><const>normal</const></test>\
         </match></fontconfig>",
    )
    .unwrap();
    let values: Vec<&Expression> = doc.matches[0].tests.iter().map(|t| &t.value.value).collect();
    assert_eq!(values[0], &Expression::Simple(Value::String("A & B".to_string())));
    match values[1] {
        Expression::Simple(Value::Double(d)) => assert_eq!(d.as_str(), "12.5"),
        other => panic!("unexpected value {:?}", other),
    }
    assert_eq!(values[2], &Expression::Simple(Value::Int(80)));
    assert_eq!(values[3], &Expression::Simple(Value::Bool(false)));
    assert_eq!(values[4], &Expression::Simple(Value::Constant(Constant::NoRgba)));
    assert_eq!(values[5], &Expression::Simple(Value::Constant(Constant::Normal)));
    assert_eq!(values[6], &Expression::Simple(Value::Constant(Constant::Normal)));
}

#[test]
fn malformed_literals_are_errors_with_their_text() {
    match read("<fontconfig><match><test name=\"weight\"><int>4294967296</int></test></match></fontconfig>") {
        Err(Error::ParseIntError(text)) => assert_eq!(text, "4294967296"),
        other => panic!("unexpected result {:?}", other),
    }
    match read("<fontconfig><match><test name=\"size\"><double>1e</double></test></match></fontconfig>") {
        Err(Error::ParseFloatError(text)) => assert_eq!(text, "1e"),
        other => panic!("unexpected result {:?}", other),
    }
    match read("<fontconfig><match><test name=\"hinting\"><bool>True</bool></test></match></fontconfig>") {
        Err(Error::ParseBoolError(text)) => assert_eq!(text, "True"),
        other => panic!("unexpected result {:?}", other),
    }
    match read("<fontconfig><match><test name=\"slant\"><const>tilted</const></test></match></fontconfig>") {
        Err(Error::ParseError(text)) => assert_eq!(text, "tilted"),
        other => panic!("unexpected result {:?}", other),
    }
}

#[test]
fn constant_of_another_family_is_a_constant_error() {
    match read("<fontconfig><match><edit name=\"hintstyle\"><const>italic</const></edit></match></fontconfig>") {
        Err(Error::ConstantPropertyError(kind, constant)) => {
            assert_eq!(kind, PropertyKind::HintStyle);
            assert_eq!(constant, Constant::Italic);
        }
        other => panic!("unexpected result {:?}", other),
    }
}

#[test]
fn attributes_are_taken_in_document_order() {
    match read("<fontconfig><match><test qual=\"none\" name=\"nothing\"><string>a</string></test></match></fontconfig>") {
        Err(Error::ParseError(text)) => assert_eq!(text, "none"),
        other => panic!("unexpected result {:?}", other),
    }
    match read("<fontconfig><match><test name=\"nothing\" qual=\"none\"><string>a</string></test></match></fontconfig>") {
        Err(Error::ParseError(text)) => assert_eq!(text, "nothing"),
        other => panic!("unexpected result {:?}", other),
    }
}

#[test]
fn attributes_of_other_elements_are_passed_over() {
    let doc = read("<fontconfig><dir mode=\"sideways\" salt=\"x&lt;y\">a</dir><cachedir salt=\"s\" prefix=\"cwd\">b</cachedir></fontconfig>").unwrap();
    assert_eq!(doc.dirs[0].salt, "x<y");
    assert_eq!(doc.cache_dirs[0].prefix, DirPrefix::Cwd);
}

#[test]
fn malformed_attribute_is_a_markup_error() {
    assert!(matches!(read("<fontconfig><dir prefix=xdg>a</dir></fontconfig>"), Err(Error::Xml(_))));
    assert!(matches!(
        read("<fontconfig><dir prefix=\"xdg\" prefix=\"cwd\">a</dir></fontconfig>"),
        Err(Error::Xml(_))
    ));
    assert!(matches!(read("<fontconfig><dir salt=\"&nothing;\">a</dir></fontconfig>"), Err(Error::Xml(_))));
}

#[test]
fn ignore_missing_is_yes_or_no() {
    let doc = read("<fontconfig><include ignore_missing=\"no\">a</include><include ignore_missing=\"yes\">b</include></fontconfig>").unwrap();
    assert!(!doc.includes[0].ignore_missing);
    assert!(doc.includes[1].ignore_missing);
    assert!(matches!(
        read("<fontconfig><include ignore_missing=\"true\">a</include></fontconfig>"),
        Err(Error::InvalidFormat)
    ));
}

#[test]
fn mismatched_end_tag_is_a_markup_error() {
    assert!(matches!(read("<fontconfig><dir>a</cachedir></fontconfig>"), Err(Error::Xml(_))));
}

#[test]
fn text_ends_at_the_first_element_inside() {
    let doc = read("<fontconfig><dir>a<b>c</b>d</dir><dir><b>c</b></dir></fontconfig>").unwrap();
    assert_eq!(doc.dirs.len(), 2);
    assert_eq!(doc.dirs[0].path, "a");
    assert_eq!(doc.dirs[1].path, "");
}

#[test]
fn later_config_replaces_the_earlier() {
    let doc = read("<fontconfig><config><rescan><int>1</int></rescan><rescan><int>2</int></rescan></config><config><rescan><int>3</int></rescan></config></fontconfig>").unwrap();
    assert_eq!(doc.config.rescans, vec![3]);
}

#[test]
fn both_readers_read_the_same_document() {
    let from_events = read(SAMPLE).unwrap();
    let from_tree = fontconfig_parser::parse_document_text(SAMPLE).unwrap();
    assert_eq!(from_events, from_tree);
}

#[test]
fn text_is_read_without_opening_a_reader() {
    let mut doc_reader = DocumentReader::new();
    let from_text = doc_reader.read_str(SAMPLE).unwrap().unwrap();
    assert_eq!(from_text, read(SAMPLE).unwrap());
    assert!(matches!(doc_reader.read_str("<none/>"), Some(Err(Error::NoFontconfig))));
    assert!(matches!(
        doc_reader.read_str("<fontconfig><dir>a</dir>").map(|r| r.map(|d| d.dirs.len())),
        Some(Ok(1))
    ));
}

#[test]
fn markup_error_holds_the_report_of_the_reader() {
    match read("<fontconfig><dir>a</cachedir></fontconfig>") {
        Err(Error::Xml(report)) => assert_eq!(report, "Expecting </dir> found </cachedir>"),
        other => panic!("unexpected result {:?}", other),
    }
    match read("<fontconfig><dir>") {
        Err(Error::Xml(report)) => assert_eq!(report, "Unexpected EOF during reading Text."),
        other => panic!("unexpected result {:?}", other),
    }
}
