use fontconfig_parser::{
    parse_config, parse_config_text, parse_document, parse_document_text, BinaryOp, ConfigPart,
    Constant, DirPrefix, EditBinding, EditMode, Error, Expression, FontMatch, ListOp, MatchTarget,
    PropertyKind, PropertyTarget, TernaryOp, TestCompare, TestQual, TestTarget, UnaryOp, Value,
    XmlAttribute, XmlNode,
};

fn element(name: &str, attributes: Vec<(&str, &str)>, children: Vec<XmlNode>) -> XmlNode {
    let text = match children.first() {
        Some(child) if !child.element => child.text.clone(),
        _ => None,
    };
    XmlNode {
        element: true,
        name: name.to_string(),
        attributes: attributes
            .into_iter()
            .map(|(name, value)| XmlAttribute { name: name.to_string(), value: value.to_string() })
            .collect(),
        text,
        children,
    }
}

fn text(text: &str) -> XmlNode {
    XmlNode {
        element: false,
        name: String::new(),
        attributes: vec![],
        text: Some(text.to_string()),
        children: vec![],
    }
}

fn leaf(name: &str, value: &str) -> XmlNode {
    element(name, vec![], vec![text(value)])
}

fn edit_value(text: &str) -> Result<Expression, Error> {
    let document = parse_document_text(&format!(
        "<fontconfig><match><edit name=\"pixelsize\">{}</edit></match></fontconfig>",
        text
    ))?;
    let mut matches = document.matches;
    let mut edits = matches.remove(0).edits;
    Ok(edits.remove(0).value.value)
}

fn depth(e: &Expression) -> usize {
    match e {
        Expression::Simple(_) => 1,
        Expression::Matrix(a, b, c, d) => {
            1 + depth(a).max(depth(b)).max(depth(c)).max(depth(d))
        }
        Expression::List(_, items)
        | Expression::Unary(_, items)
        | Expression::Binary(_, items)
        | Expression::Ternary(_, items) => 1 + items.iter().map(depth).max().unwrap_or(0),
    }
}

#[test]
fn reads_a_document_from_its_text() {
    let document = parse_document_text(
        "<?xml version=\"1.0\"?>\n\
         <!DOCTYPE fontconfig SYSTEM \"urn:fontconfig:fonts.dtd\">\n\
         <fontconfig>\n\
           <description>Default &lt;configuration&gt;</description>\n\
           <dir prefix=\"xdg\" salt=\"a&amp;b\">fonts</dir>\n\
           <cachedir>/var/cache/fontconfig</cachedir>\n\
           <include ignore_missing=\"yes\" prefix=\"cwd\">conf.d</include>\n\
           <match target=\"scan\">\n\
             <test name=\"family\" qual=\"first\" target=\"font\" compare=\"contains\"><string>Mono</string></test>\n\
             <edit name=\"spacing\" mode=\"append_last\" binding=\"same\"><const>mono</const></edit>\n\
           </match>\n\
           <config><rescan><int>30</int></rescan></config>\n\
           <future-element>ignored</future-element>\n\
         </fontconfig>\n",
    )
    .unwrap();
    assert_eq!(document.description, "Default <configuration>");
    assert_eq!(document.dirs.len(), 1);
    assert_eq!(document.dirs[0].prefix, DirPrefix::Xdg);
    assert_eq!(document.dirs[0].salt, "a&b");
    assert_eq!(document.dirs[0].path, "fonts");
    assert_eq!(document.cache_dirs.len(), 1);
    assert_eq!(document.cache_dirs[0].prefix, DirPrefix::Default);
    assert_eq!(document.cache_dirs[0].path, "/var/cache/fontconfig");
    assert_eq!(document.includes.len(), 1);
    assert_eq!(document.includes[0].prefix, DirPrefix::Cwd);
    assert!(document.includes[0].ignore_missing);
    assert_eq!(document.includes[0].path, "conf.d");
    assert_eq!(document.matches.len(), 1);
    let rule = &document.matches[0];
    assert_eq!(rule.target, MatchTarget::Scan);
    assert_eq!(rule.tests.len(), 1);
    assert_eq!(rule.tests[0].qual, TestQual::First);
    assert_eq!(rule.tests[0].target, TestTarget::Font);
    assert_eq!(rule.tests[0].compare, TestCompare::Contains);
    assert_eq!(rule.tests[0].value.kind, PropertyKind::Family);
    assert_eq!(rule.tests[0].value.value, Expression::Simple(Value::String("Mono".to_string())));
    assert_eq!(rule.edits.len(), 1);
    assert_eq!(rule.edits[0].mode, EditMode::AppendLast);
    assert_eq!(rule.edits[0].binding, EditBinding::Same);
    assert_eq!(rule.edits[0].value.kind, PropertyKind::Spacing);
    assert_eq!(rule.edits[0].value.value, Expression::Simple(Value::Constant(Constant::Mono)));
    assert_eq!(document.config.rescans, vec![30]);
}

#[test]
fn reads_a_document_from_nodes_written_by_hand() {
    let root = element(
        "fontconfig",
        vec![],
        vec![
            text("\n  "),
            element("description", vec![], vec![text("by hand")]),
            element(
                "match",
                vec![("target", "font")],
                vec![
                    text("\n"),
                    element("test", vec![("name", "weight")], vec![text(" "), leaf("int", "200")]),
                    element(
                        "edit",
                        vec![("name", "embolden"), ("mode", "assign")],
                        vec![leaf("bool", "true")],
                    ),
                ],
            ),
        ],
    );
    let document = parse_document(&root).unwrap();
    assert_eq!(document.description, "by hand");
    assert_eq!(document.matches.len(), 1);
    assert_eq!(document.matches[0].target, MatchTarget::Font);
    assert_eq!(document.matches[0].tests[0].value.kind, PropertyKind::Weight);
    assert_eq!(document.matches[0].tests[0].value.value, Expression::Simple(Value::Int(200)));
    assert_eq!(document.matches[0].edits[0].value.value, Expression::Simple(Value::Bool(true)));
}

#[test]
fn root_of_another_name_is_no_font_configuration() {
    let root = element("html", vec![], vec![]);
    assert!(matches!(parse_document(&root), Err(Error::NoFontconfig)));
    assert!(matches!(parse_config(&root), Err(Error::NoFontconfig)));
    assert!(matches!(parse_document_text("<svg/>"), Err(Error::NoFontconfig)));
}

#[test]
fn text_that_is_no_markup_is_a_tree_error() {
    assert!(matches!(parse_document_text("fonts, please"), Err(Error::Tree(_))));
    assert!(matches!(parse_config_text("<a></b>"), Err(Error::Tree(_))));
}

#[test]
fn parts_come_in_document_order_and_stop_at_the_first_failure() {
    let found = parse_config_text(
        "<fontconfig>\
         <reset-dirs/>\
         <dir>/one</dir>\
         <unknown/>\
         <alias><family>serif</family><prefer><family>A</family><family>B</family></prefer><accept><family>C</family></accept><default><family>D</family></default></alias>\
         <remap-dir as-path=\"/x\">/y</remap-dir>\
         <match><test name=\"slant\"><const>bold</const></test></match>\
         <dir>/never</dir>\
         </fontconfig>",
    )
    .unwrap();
    assert_eq!(found.parts.len(), 4);
    assert_eq!(found.parts[0], ConfigPart::ResetDirs);
    match &found.parts[1] {
        ConfigPart::Dir(dir) => assert_eq!(dir.path, "/one"),
        other => panic!("unexpected part {:?}", other),
    }
    match &found.parts[2] {
        ConfigPart::Alias(alias) => {
            assert_eq!(alias.alias, "serif");
            assert_eq!(alias.prefer, vec!["A".to_string(), "B".to_string()]);
            assert_eq!(alias.accept, vec!["C".to_string()]);
            assert_eq!(alias.default, vec!["D".to_string()]);
        }
        other => panic!("unexpected part {:?}", other),
    }
    match &found.parts[3] {
        ConfigPart::RemapDir(dir) => {
            assert_eq!(dir.as_path, "/x");
            assert_eq!(dir.path, "/y");
        }
        other => panic!("unexpected part {:?}", other),
    }
    match found.failure {
        Some(Error::ConstantPropertyError(kind, constant)) => {
            assert_eq!(kind, PropertyKind::Slant);
            assert_eq!(constant, Constant::Bold);
        }
        other => panic!("unexpected failure {:?}", other),
    }
}

#[test]
fn one_failing_element_gives_no_document() {
    let r = parse_document_text(
        "<fontconfig><dir>/one</dir><match><test name=\"nothing\"><int>1</int></test></match></fontconfig>",
    );
    match r {
        Err(Error::ParseError(text)) => assert_eq!(text, "nothing"),
        other => panic!("unexpected result {:?}", other),
    }
}

#[test]
fn select_font_holds_globs_and_patterns() {
    let found = parse_config_text(
        "<fontconfig><selectfont>\
         <acceptfont><glob>/usr/share/fonts/*</glob></acceptfont>\
         <rejectfont><pattern><patelt name=\"scalable\"><bool>false</bool></patelt><patelt name=\"family\"><string>Bits</string></patelt></pattern><glob>*.bdf</glob></rejectfont>\
         </selectfont></fontconfig>",
    )
    .unwrap();
    assert!(found.failure.is_none());
    assert_eq!(found.parts.len(), 1);
    match &found.parts[0] {
        ConfigPart::SelectFont(selection) => {
            assert_eq!(selection.accepts, vec![FontMatch::Glob("/usr/share/fonts/*".to_string())]);
            assert_eq!(selection.rejects.len(), 2);
            match &selection.rejects[0] {
                FontMatch::Pattern(properties) => {
                    assert_eq!(properties.len(), 2);
                    assert_eq!(properties[0].kind, PropertyKind::Scalable);
                    assert_eq!(properties[0].value, Expression::Simple(Value::Bool(false)));
                    assert_eq!(properties[1].kind, PropertyKind::Family);
                }
                other => panic!("unexpected selection {:?}", other),
            }
            assert_eq!(selection.rejects[1], FontMatch::Glob("*.bdf".to_string()));
        }
        other => panic!("unexpected part {:?}", other),
    }
}

#[test]
fn nested_operators_keep_their_depth_and_the_order_of_their_operands() {
    let e = edit_value(
        "<if><not><and><bool>true</bool><not><bool>false</bool></not></and></not><double>1.5</double><times><name target=\"font\">pixelsize</name><int>2</int><double>0.5</double></times></if>",
    )
    .unwrap();
    assert_eq!(depth(&e), 5);
    match e {
        Expression::Ternary(TernaryOp::If, items) => {
            assert_eq!(items.len(), 3);
            match &items[0] {
                Expression::Unary(UnaryOp::Not, inner) => match &inner[0] {
                    Expression::List(ListOp::And, operands) => {
                        assert_eq!(operands.len(), 2);
                        assert_eq!(operands[0], Expression::Simple(Value::Bool(true)));
                        assert!(matches!(&operands[1], Expression::Unary(UnaryOp::Not, _)));
                    }
                    other => panic!("unexpected operand {:?}", other),
                },
                other => panic!("unexpected operand {:?}", other),
            }
            match &items[1] {
                Expression::Simple(Value::Double(d)) => assert_eq!(d.as_str(), "1.5"),
                other => panic!("unexpected operand {:?}", other),
            }
            match &items[2] {
                Expression::List(ListOp::Times, operands) => {
                    assert_eq!(operands.len(), 3);
                    assert_eq!(
                        operands[0],
                        Expression::Simple(Value::Property(
                            PropertyTarget::Font,
                            PropertyKind::PixelSize
                        ))
                    );
                    assert_eq!(operands[1], Expression::Simple(Value::Int(2)));
                }
                other => panic!("unexpected operand {:?}", other),
            }
        }
        other => panic!("unexpected expression {:?}", other),
    }
}

#[test]
fn operators_nested_forty_deep_make_an_expression_forty_one_deep() {
    let mut text = String::from("<bool>true</bool>");
    for _ in 0..40 {
        text = format!("<not>{}</not>", text);
    }
    let e = edit_value(&text).unwrap();
    assert_eq!(depth(&e), 41);
}

#[test]
fn binary_operator_and_matrix() {
    let e = edit_value("<less_eq><int>1</int><int>2</int></less_eq>").unwrap();
    assert_eq!(
        e,
        Expression::Binary(
            BinaryOp::LessEq,
            vec![Expression::Simple(Value::Int(1)), Expression::Simple(Value::Int(2))]
        )
    );
    let document = parse_document_text(
        "<fontconfig><match><edit name=\"matrix\"><matrix><double>1</double><double>0.2</double><double>0</double><double>1</double></matrix></edit></match></fontconfig>",
    )
    .unwrap();
    match &document.matches[0].edits[0].value.value {
        Expression::Matrix(a, b, c, d) => {
            let cells: Vec<&Expression> = vec![a, b, c, d];
            let texts: Vec<&str> = cells
                .iter()
                .map(|cell| match cell {
                    Expression::Simple(Value::Double(d)) => d.as_str(),
                    other => panic!("unexpected cell {:?}", other),
                })
                .collect();
            assert_eq!(texts, vec!["1", "0.2", "0", "1"]);
        }
        other => panic!("unexpected value {:?}", other),
    }
}

#[test]
fn matrix_of_three_cells_is_a_format_error() {
    let r = edit_value("<matrix><double>1</double><double>0</double><double>0</double></matrix>");
    assert!(matches!(r, Err(Error::InvalidFormat)));
}

#[test]
fn element_that_names_no_operator_is_an_error_with_its_name() {
    match edit_value("<sideways><int>1</int></sideways>") {
        Err(Error::ParseError(text)) => assert_eq!(text, "sideways"),
        other => panic!("unexpected result {:?}", other),
    }
}

#[test]
fn operand_that_fails_decides_before_the_operator_is_looked_up() {
    match edit_value("<sideways><int>one</int></sideways>") {
        Err(Error::ParseIntError(text)) => assert_eq!(text, "one"),
        other => panic!("unexpected result {:?}", other),
    }
}

#[test]
fn malformed_literals_give_the_error_of_their_kind() {
    match edit_value("<int>-1</int>") {
        Err(Error::ParseIntError(text)) => assert_eq!(text, "-1"),
        other => panic!("unexpected result {:?}", other),
    }
    match edit_value("<double>1.2.3</double>") {
        Err(Error::ParseFloatError(text)) => assert_eq!(text, "1.2.3"),
        other => panic!("unexpected result {:?}", other),
    }
    match edit_value("<bool>yes</bool>") {
        Err(Error::ParseBoolError(text)) => assert_eq!(text, "yes"),
        other => panic!("unexpected result {:?}", other),
    }
    match edit_value("<const>heavyish</const>") {
        Err(Error::ParseError(text)) => assert_eq!(text, "heavyish"),
        other => panic!("unexpected result {:?}", other),
    }
    assert!(matches!(edit_value("<int><b/></int>"), Err(Error::InvalidFormat)));
}

#[test]
fn value_of_another_type_is_a_conversion_error() {
    match edit_value("<int>12</int>") {
        Err(Error::PropertyConvertError(kind, value)) => {
            assert_eq!(kind, PropertyKind::PixelSize);
            assert_eq!(value, Expression::Simple(Value::Int(12)));
        }
        other => panic!("unexpected result {:?}", other),
    }
}

#[test]
fn test_without_a_value_is_a_format_error() {
    let r = parse_document_text(
        "<fontconfig><match><test name=\"family\">Mono</test></match></fontconfig>",
    );
    assert!(matches!(r, Err(Error::InvalidFormat)));
}

#[test]
fn unknown_attribute_text_is_an_error_with_the_text() {
    let r = parse_document_text(
        "<fontconfig><match><test name=\"family\" qual=\"some\"><string>a</string></test></match></fontconfig>",
    );
    match r {
        Err(Error::ParseError(text)) => assert_eq!(text, "some"),
        other => panic!("unexpected result {:?}", other),
    }
    let r = parse_document_text("<fontconfig><include ignore_missing=\"maybe\">x</include></fontconfig>");
    assert!(matches!(r, Err(Error::InvalidFormat)));
}

#[test]
fn description_without_text_is_empty() {
    let document = parse_document_text("<fontconfig><description/></fontconfig>").unwrap();
    assert_eq!(document.description, "");
}

#[test]
fn text_that_declares_an_entity_is_refused() {
    let crafted = "<!DOCTYPE t [<!ENTITY p '<x/></r></y>'>]><r>&p;</r>";
    match parse_document_text(crafted) {
        Err(Error::Tree(report)) => assert_eq!(report, "entities are not taken"),
        other => panic!("unexpected result {:?}", other),
    }
    assert!(matches!(parse_config_text(crafted), Err(Error::Tree(_))));
    let harmless = "<!DOCTYPE fontconfig [<!ENTITY d '/usr/share/fonts'>]><fontconfig><dir>&d;</dir></fontconfig>";
    assert!(matches!(parse_document_text(harmless), Err(Error::Tree(_))));
    let mentioned = "<fontconfig><!-- no <!ENTITY here --><dir>/a</dir></fontconfig>";
    assert!(matches!(parse_document_text(mentioned), Err(Error::Tree(_))));
    let other = "<fontconfig><!-- no <!entity here --><dir>/a</dir></fontconfig>";
    assert_eq!(parse_document_text(other).unwrap().dirs.len(), 1);
}

#[test]
fn document_of_another_type_is_refused_by_the_tree_reader() {
    let right = "<?xml version=\"1.0\"?>\n<!-- c -->\n<!DOCTYPE fontconfig SYSTEM \"urn:fontconfig:fonts.dtd\">\n<fontconfig><dir>/a</dir></fontconfig>";
    assert_eq!(parse_document_text(right).unwrap().dirs.len(), 1);
    let other = "<?xml version=\"1.0\"?>\n<!-- c -->\n<!DOCTYPE fontconfig SYSTEM \"fonts.dtd\">\n<fontconfig><dir>/a</dir></fontconfig>";
    assert!(matches!(parse_document_text(other), Err(Error::UnmatchedDocType)));
    assert!(matches!(parse_config_text(other), Err(Error::UnmatchedDocType)));
    let html = "<!DOCTYPE html><fontconfig/>";
    assert!(matches!(parse_document_text(html), Err(Error::UnmatchedDocType)));
    let spaced = "\u{feff} \n<!DOCTYPE fontconfig SYSTEM \"urn:fontconfig:fonts.dtd\" >\n<fontconfig/>";
    assert!(matches!(parse_document_text(spaced), Err(Error::UnmatchedDocType)));
    let none = "<!-- <!DOCTYPE html> --><fontconfig><dir>/a</dir></fontconfig>";
    assert_eq!(parse_document_text(none).unwrap().dirs.len(), 1);
    let in_body = "<fontconfig><description>&lt;!DOCTYPE html></description></fontconfig>";
    assert_eq!(parse_document_text(in_body).unwrap().description, "<!DOCTYPE html>");
}
