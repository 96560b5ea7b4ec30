use reservation_mailer::configshandler::{
    add_custom_template, apply_config_var, configs_dir, custom_number_of, default_config,
    find_placeholders_in_body, find_template_by_label, find_templates_by_label,
    templates_matching_lowered,
    max_custom_number, next_custom_label, render_template, set_default_template, ConfigVar,
    DBTypes, Placeholder, Template, TemplateTypes,
};

fn ph(name: &str, truevalue: &str, example: &str) -> Placeholder {
    Placeholder::new(name.to_string(), truevalue.to_string(), example.to_string())
}

fn tpl(label: &str, subject: &str, body: &str, placeholders: Vec<Placeholder>) -> Template {
    Template::new(
        TemplateTypes::NewRes,
        label.to_string(),
        subject.to_string(),
        body.to_string(),
        placeholders,
    )
}

#[test]
fn template_none_is_empty() {
    let t = Template::none();
    assert_eq!(t.ttype, TemplateTypes::Untyped);
    assert!(t.label.is_empty() && t.subject.is_empty() && t.body.is_empty());
    assert!(t.placeholders.is_empty());
}

#[test]
fn template_new_keeps_fields() {
    let t = Template::new(
        TemplateTypes::CancelRes,
        "l".to_string(),
        "s".to_string(),
        "b".to_string(),
        vec![ph("a", "b", "c")],
    );
    assert_eq!(t.ttype, TemplateTypes::CancelRes);
    assert_eq!((t.label.as_str(), t.subject.as_str(), t.body.as_str()), ("l", "s", "b"));
    assert_eq!(t.placeholders.len(), 1);
    assert_eq!(t.placeholders[0].name, "a");
    assert_eq!(t.placeholders[0].truevalue, "b");
    assert_eq!(t.placeholders[0].example, "c");
}

#[test]
fn render_uses_truevalue_then_example() {
    let t = tpl(
        "x",
        "Hi {{creds}}",
        "Dear {{creds}}, see {{signature}} and {{creds}}.",
        vec![ph("creds", "Anna", "Jan Kowalski")],
    );
    let extra = vec![ph("signature", "", "Twoja firma")];
    let e = render_template(&t, &extra);
    assert_eq!(e.subject, "Hi Anna");
    assert_eq!(e.body, "Dear Anna, see Twoja firma and Anna.");
}

#[test]
fn render_without_placeholders_is_identity() {
    let t = tpl("x", "S {{a}}", "B {{b}}", vec![]);
    let e = render_template(&t, &[]);
    assert_eq!(e.subject, "S {{a}}");
    assert_eq!(e.body, "B {{b}}");
}

#[test]
fn render_text_without_slots_unchanged() {
    let t = tpl("x", "plain {subject}", "no slots here", vec![ph("a", "1", "2")]);
    let e = render_template(&t, &[ph("b", "", "3")]);
    assert_eq!(e.subject, "plain {subject}");
    assert_eq!(e.body, "no slots here");
}

#[test]
fn render_replaces_left_to_right_without_overlap() {
    // "{{{a}}}" holds "{{a}}" starting at its second character.
    let t = tpl("x", "{{{a}}}", "{{a}}{{a}}", vec![ph("a", "X", "")]);
    let e = render_template(&t, &[]);
    assert_eq!(e.subject, "{X}");
    assert_eq!(e.body, "XX");
}

#[test]
fn render_later_placeholder_sees_earlier_value() {
    // The first value introduces a slot that the second placeholder fills.
    let t = tpl("x", "{{a}}", "", vec![ph("a", "{{b}}", "")]);
    let e = render_template(&t, &[ph("b", "done", "")]);
    assert_eq!(e.subject, "done");
}

#[test]
fn render_unicode_text() {
    let t = tpl("x", "Żółć {{n}}", "ąę {{n}} ść", vec![ph("n", "Łukasz", "")]);
    let e = render_template(&t, &[]);
    assert_eq!(e.subject, "Żółć Łukasz");
    assert_eq!(e.body, "ąę Łukasz ść");
}

#[test]
fn find_by_label_returns_first() {
    let ts = vec![
        tpl("a", "1", "", vec![]),
        tpl("b", "2", "", vec![]),
        tpl("b", "3", "", vec![]),
    ];
    let t = find_template_by_label(&ts, "b").unwrap();
    assert_eq!(t.subject, "2");
    assert!(find_template_by_label(&ts, "c").is_none());
    assert!(find_template_by_label(&ts, "B").is_none());
    assert!(find_template_by_label(&Vec::new(), "a").is_none());
}

#[test]
fn find_templates_ignores_case() {
    let ts = vec![
        tpl("rezerwacja preset", "1", "", vec![]),
        tpl("aktualizacja", "2", "", vec![]),
        tpl("Odwołanie PRESET", "3", "", vec![]),
    ];
    let found = find_templates_by_label(&ts, "PReset").unwrap();
    let subjects: Vec<&str> = found.iter().map(|t| t.subject.as_str()).collect();
    assert_eq!(subjects, vec!["1", "3"]);
    assert!(find_templates_by_label(&ts, "none such").is_none());
}

#[test]
fn matching_on_lowered_texts() {
    let ts = vec![tpl("A", "1", "", vec![]), tpl("B", "2", "", vec![]), tpl("C", "3", "", vec![])];
    let lowered = vec!["xabc".to_string(), "zzz".to_string(), "abd".to_string()];
    let found = templates_matching_lowered(&ts, &lowered, "ab").unwrap();
    let subjects: Vec<&str> = found.iter().map(|t| t.subject.as_str()).collect();
    assert_eq!(subjects, vec!["1", "3"]);
    assert!(templates_matching_lowered(&ts, &lowered, "q").is_none());
}

#[test]
fn find_templates_unicode_case() {
    let ts = vec![tpl("ODWOŁANIE", "1", "", vec![])];
    let found = find_templates_by_label(&ts, "odwołanie").unwrap();
    assert_eq!(found.len(), 1);
}

#[test]
fn find_templates_empty_query_matches_all() {
    let ts = vec![tpl("a", "1", "", vec![]), tpl("b", "2", "", vec![])];
    assert_eq!(find_templates_by_label(&ts, "").unwrap().len(), 2);
    assert!(find_templates_by_label(&Vec::new(), "").is_none());
}

#[test]
fn exact_label_is_found_by_search() {
    let ts = vec![tpl("x", "0", "", vec![]), tpl("Custom7", "1", "", vec![])];
    let exact = find_template_by_label(&ts, "Custom7").unwrap();
    let found = find_templates_by_label(&ts, "Custom7").unwrap();
    assert!(found.iter().any(|t| t.subject == exact.subject));
}

#[test]
fn placeholders_found_in_body() {
    let ps = find_placeholders_in_body("Hi {{creds}}, {{date}} {{}} {x}} {{a}b}} {{{c}}").unwrap();
    let names: Vec<&str> = ps.iter().map(|p| p.name.as_str()).collect();
    assert_eq!(names, vec!["creds", "date", "{c"]);
    assert!(ps.iter().all(|p| p.truevalue.is_empty() && p.example.is_empty()));
}

#[test]
fn placeholders_slot_grammar() {
    let names = |body: &str| -> Vec<String> {
        find_placeholders_in_body(body).unwrap().into_iter().map(|p| p.name).collect()
    };
    assert_eq!(names("{{a}}}"), vec!["a"]);
    assert_eq!(names("{{{{a}}"), vec!["{{a"]);
    assert_eq!(names("{{a}b{{c}}"), vec!["c"]);
    assert_eq!(names("{{x\ny}}{{ą}}"), vec!["x\ny", "ą"]);
    assert_eq!(names("{{line
break}}"), vec!["line
break"]);
    assert!(names("{{}}{ {a}} {{a}").is_empty());
}

#[test]
fn placeholders_none_in_plain_text() {
    assert!(find_placeholders_in_body("no slots").unwrap().is_empty());
}

#[test]
fn custom_numbers_of_labels() {
    assert_eq!(custom_number_of("custom1"), Some(1));
    assert_eq!(custom_number_of("custom007"), Some(7));
    assert_eq!(custom_number_of("custom+3"), Some(3));
    assert_eq!(custom_number_of("custom4294967295"), Some(u32::MAX));
    assert_eq!(custom_number_of("custom4294967296"), None);
    assert_eq!(custom_number_of("custom"), None);
    assert_eq!(custom_number_of("custom+"), None);
    assert_eq!(custom_number_of("custom-1"), None);
    assert_eq!(custom_number_of("custom1a"), None);
    assert_eq!(custom_number_of("Custom1"), None);
    assert_eq!(custom_number_of("cust"), None);
}

#[test]
fn next_label_after_greatest_custom_number() {
    let ts = vec![
        tpl("custom3", "", "", vec![]),
        tpl("rezerwacja preset", "", "", vec![]),
        tpl("custom10", "", "", vec![]),
        tpl("customx", "", "", vec![]),
    ];
    assert_eq!(max_custom_number(&ts), 10);
    assert_eq!(next_custom_label(&ts), "custom11");
    assert_eq!(next_custom_label(&Vec::new()), "custom1");
}

#[test]
fn next_label_is_fresh_with_odd_labels() {
    let ts = vec![tpl("custom+1", "", "", vec![]), tpl("custom02", "", "", vec![])];
    let l = next_custom_label(&ts);
    assert_eq!(l, "custom3");
    assert!(ts.iter().all(|t| t.label != l));
}

#[test]
fn add_custom_template_appends() {
    let mut ts = vec![tpl("custom1", "", "", vec![])];
    let label = add_custom_template(&mut ts, "Hello {{creds}}".to_string(), TemplateTypes::NewRes).unwrap();
    assert_eq!(label, "custom2");
    assert_eq!(ts.len(), 2);
    let t = &ts[1];
    assert_eq!(t.label, "custom2");
    assert_eq!(t.subject, "");
    assert_eq!(t.body, "Hello {{creds}}");
    assert_eq!(t.ttype, TemplateTypes::NewRes);
    assert_eq!(t.placeholders.len(), 1);
    assert_eq!(t.placeholders[0].name, "creds");
    assert_eq!(find_template_by_label(&ts, "custom2").unwrap().body, "Hello {{creds}}");
}

#[test]
fn configs_dir_cases() {
    assert_eq!(configs_dir("/home/u/app", '/'), "/home/u/app/configs");
    assert_eq!(configs_dir("/home/u/app/", '/'), "/home/u/app/configs");
    assert_eq!(configs_dir("", '/'), "configs");
    assert_eq!(configs_dir("dir\\", '/'), "dir\\/configs");
    assert_eq!(configs_dir("C:\\Users\\app", '\\'), "C:\\Users\\app\\configs");
    assert_eq!(configs_dir("C:\\Users\\app\\", '\\'), "C:\\Users\\app\\configs");
    assert_eq!(configs_dir("C:/Users/app/", '\\'), "C:/Users/app/configs");
    assert_eq!(configs_dir("C:", '\\'), "C:configs");
    assert_eq!(configs_dir("\\\\server\\share", '\\'), "\\\\server\\share\\configs");
}

#[test]
fn configs_dir_verbatim_uses_path_join() {
    let b = "\\\\?\\C:\\proj";
    let std_join = std::path::Path::new(b).join("configs");
    assert_eq!(configs_dir(b, '\\'), std_join.to_str().unwrap());
}

#[test]
fn configs_dir_matches_std() {
    for b in ["/a/b", "/a/b/", "", "rel", "rel/x//", "d\\"] {
        let std_join = std::path::Path::new(b).join("configs");
        assert_eq!(configs_dir(b, std::path::MAIN_SEPARATOR), std_join.to_str().unwrap());
    }
}

#[test]
fn default_config_values() {
    let c = default_config();
    assert_eq!(c.templates_file_path, "templates.json");
    assert_eq!(c.new_reservation_name, "rezerwacja preset");
    assert_eq!(c.update_reservation_name, "aktualizacja preset");
    assert_eq!(c.delete_reservation_name, "odwołanie preset");
    assert!(c.custom_templates_name.is_empty());
    assert_eq!(c.placeholders.len(), 2);
    assert_eq!(c.placeholders[0].name, "creds");
    assert_eq!(c.placeholders[0].example, "Jan Kowalski");
    assert_eq!(c.placeholders[1].name, "signature");
    assert_eq!(c.placeholders[1].example, "Twoja firma");
    assert_eq!(c.db_type, DBTypes::Access);
    assert!(c.db_path.is_none());
}

#[test]
fn config_vars_change_one_field() {
    let mut c = default_config();
    apply_config_var(&mut c, ConfigVar::DBtype(DBTypes::SQLite));
    assert_eq!(c.db_type, DBTypes::SQLite);
    apply_config_var(&mut c, ConfigVar::DBpath(Some("/tmp/x.db".to_string())));
    assert_eq!(c.db_path.as_deref(), Some("/tmp/x.db"));
    assert_eq!(c.new_reservation_name, "rezerwacja preset");
}

#[test]
fn default_template_names_by_type() {
    let mut c = default_config();
    set_default_template(&mut c, TemplateTypes::NewRes, "custom1".to_string());
    set_default_template(&mut c, TemplateTypes::UpdateRes, "custom2".to_string());
    set_default_template(&mut c, TemplateTypes::CancelRes, "custom3".to_string());
    set_default_template(&mut c, TemplateTypes::Untyped, "custom4".to_string());
    assert_eq!(c.new_reservation_name, "custom1");
    assert_eq!(c.update_reservation_name, "custom2");
    assert_eq!(c.delete_reservation_name, "custom3");
}

#[test]
fn clones_are_equal() {
    let t = tpl("a", "b", "c", vec![ph("x", "y", "z")]);
    let u = t.clone();
    assert_eq!(u.label, t.label);
    assert_eq!(u.placeholders[0].example, "z");
}
