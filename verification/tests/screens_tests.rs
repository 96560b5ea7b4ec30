use reservation_mailer::app::{default_templates, should_connect, App, MissingDefaultTemplate, Screen};
use reservation_mailer::configshandler::{
    default_config, ConfigVar, DBTypes, DefaultTemplate, Template, TemplateTypes,
};
use reservation_mailer::dbadapt::empty;
use reservation_mailer::first_configuration::{
    db_type_name, ConfStage, FirstConfigurationState, FirstStageAction, PreviewDisplay,
    SelectedPanel,
};
use reservation_mailer::home::{self, Home};
use reservation_mailer::window::Window;

fn tpl(label: &str, subject: &str) -> Template {
    Template::new(TemplateTypes::NewRes, label.to_string(), subject.to_string(), String::new(), vec![])
}

fn defaults() -> DefaultTemplate {
    DefaultTemplate {
        new_reservation: tpl("a", "1"),
        update_reservation: tpl("b", "2"),
        delete_reservation: tpl("c", "3"),
    }
}

fn preset_templates() -> Vec<Template> {
    vec![
        tpl("rezerwacja preset", "new"),
        tpl("aktualizacja preset", "upd"),
        tpl("odwołanie preset", "del"),
        tpl("rezerwacja preset", "second"),
    ]
}

#[test]
fn window_default() {
    let w = Window::default();
    assert_eq!(w.title, "My Window");
    assert_eq!((w.width, w.height), (800, 600));
}

#[test]
fn home_new() {
    assert!(Home::new().screen == home::Screen::Main);
}

#[test]
fn first_configuration_new() {
    let s = FirstConfigurationState::new(defaults());
    assert!(s.stage == ConfStage::First);
    assert!(s.selected_panel == SelectedPanel::Unselected);
    assert_eq!(s.selected_db_type, DBTypes::NoDatabase);
    assert!(s.editor_text.is_empty() && s.selected_db_path.is_none());
    assert!(s.preview_headers.is_empty() && s.preview_rows.is_empty());
    assert!(s.preview_error.is_none() && !s.preview_pending && !s.finished);
    assert_eq!(s.default_template.update_reservation.subject, "2");
}

#[test]
fn first_stage_buttons() {
    let mut s = FirstConfigurationState::new(defaults());
    assert!(!s.first_stage_can_save());
    assert!(matches!(s.first_stage_save(), FirstStageAction::Stay));
    assert!(s.stage == ConfStage::First);

    s.selected_panel = SelectedPanel::Left;
    assert!(s.first_stage_can_save());
    assert!(matches!(s.first_stage_save(), FirstStageAction::KeepDefault));
    assert!(s.stage == ConfStage::Second);

    let mut s = FirstConfigurationState::new(defaults());
    s.selected_panel = SelectedPanel::Right;
    s.editor_text = "Witaj {{creds}}".to_string();
    match s.first_stage_save() {
        FirstStageAction::SaveNewTemplate(t) => assert_eq!(t, "Witaj {{creds}}"),
        _ => panic!("expected the editor text"),
    }
    assert!(s.stage == ConfStage::Second);
}

#[test]
fn preview_flow() {
    let mut s = FirstConfigurationState::new(defaults());
    assert_eq!(s.preview_display(), PreviewDisplay::Empty);
    assert!(!s.second_stage_can_save());
    s.start_preview("/tmp/a.db".to_string());
    assert!(s.preview_pending && s.second_stage_can_save());
    assert_eq!(s.preview_display(), PreviewDisplay::Loading);
    s.receive_preview(Ok((vec!["h".to_string()], vec![vec!["v".to_string()]])));
    assert!(!s.preview_pending);
    assert_eq!(s.preview_display(), PreviewDisplay::Table);
    s.receive_preview(Err("bad".to_string()));
    assert_eq!(s.preview_display(), PreviewDisplay::Error("bad".to_string()));
    assert!(s.preview_rows.is_empty() && s.preview_headers.is_empty());
    s.start_preview("/tmp/b.db".to_string());
    assert!(s.preview_error.is_none());
    s.receive_preview(Ok((vec![], vec![])));
    assert_eq!(s.preview_display(), PreviewDisplay::Empty);
}

#[test]
fn second_stage_save() {
    let mut s = FirstConfigurationState::new(defaults());
    s.stage = ConfStage::Second;
    assert!(s.second_stage_save().is_empty());
    assert!(s.stage == ConfStage::Second);
    s.selected_db_type = DBTypes::SQLite;
    s.start_preview("/tmp/a.db".to_string());
    let vars = s.second_stage_save();
    assert_eq!(vars.len(), 2);
    assert!(matches!(vars[0], ConfigVar::DBtype(DBTypes::SQLite)));
    assert!(matches!(&vars[1], ConfigVar::DBpath(Some(p)) if p == "/tmp/a.db"));
    assert!(s.stage == ConfStage::Third);
    s.finish();
    assert!(s.finished);
}

#[test]
fn db_type_names() {
    assert_eq!(db_type_name(DBTypes::NoDatabase), "Brak");
    assert_eq!(db_type_name(DBTypes::Access), "MS Access");
    assert_eq!(db_type_name(DBTypes::SQLite), "SQLite");
}

#[test]
fn default_templates_found() {
    let d = default_templates(&preset_templates(), &default_config()).unwrap();
    assert_eq!(d.new_reservation.subject, "new");
    assert_eq!(d.update_reservation.subject, "upd");
    assert_eq!(d.delete_reservation.subject, "del");
}

#[test]
fn default_templates_missing() {
    let mut ts = preset_templates();
    ts.remove(1);
    assert_eq!(
        default_templates(&ts, &default_config()).err(),
        Some(MissingDefaultTemplate::UpdateReservation)
    );
    assert_eq!(
        default_templates(&vec![], &default_config()).err(),
        Some(MissingDefaultTemplate::NewReservation)
    );
    let ts = vec![tpl("rezerwacja preset", ""), tpl("aktualizacja preset", "")];
    assert_eq!(
        default_templates(&ts, &default_config()).err(),
        Some(MissingDefaultTemplate::DeleteReservation)
    );
}

#[test]
fn app_start_screens() {
    let app = App::new(true, default_config(), &preset_templates(), empty()).unwrap();
    assert!(matches!(app.screen, Screen::Home(_)));
    let mut app = App::new(false, default_config(), &preset_templates(), empty()).unwrap();
    match &app.screen {
        Screen::FirstConfiguration(s) => {
            assert!(s.stage == ConfStage::First);
            assert_eq!(s.default_template.new_reservation.subject, "new");
        }
        _ => panic!("expected the set-up screen"),
    }
    app.after_frame();
    assert!(matches!(app.screen, Screen::FirstConfiguration(_)));
    if let Screen::FirstConfiguration(s) = &mut app.screen {
        s.selected_panel = SelectedPanel::Left;
        s.first_stage_save();
        s.start_preview("/tmp/db.sqlite".to_string());
        s.second_stage_save();
        assert!(s.stage == ConfStage::Third && !s.finished);
        s.finish();
    }
    app.after_frame();
    assert!(matches!(app.screen, Screen::Home(_)));
    app.after_frame();
    assert!(matches!(app.screen, Screen::Home(_)));
    assert!(App::new(true, default_config(), &vec![], empty()).is_err());
}

struct Counting;

impl reservation_mailer::dbadapt::DBConnection for Counting {
    fn execute(&self, _sql: &str) -> Result<(), reservation_mailer::dbadapt::DBError> {
        Ok(())
    }
    fn query_rows(
        &self,
        _sql: &str,
    ) -> Result<(Vec<String>, Vec<Vec<String>>), reservation_mailer::dbadapt::DBError> {
        Ok((vec![], vec![]))
    }
    fn list_tables(&self) -> Result<Vec<String>, reservation_mailer::dbadapt::DBError> {
        Ok(vec!["kept".to_string()])
    }
    fn is_configured(&self) -> bool {
        true
    }
}

#[test]
fn app_keeps_given_connection() {
    let app = App::new(true, default_config(), &preset_templates(), Box::new(Counting)).unwrap();
    assert!(app.db.is_configured());
    assert_eq!(app.db.list_tables().unwrap(), vec!["kept".to_string()]);
}

#[test]
fn connect_only_to_existing_file() {
    let mut c = default_config();
    assert!(!should_connect(&c, true));
    c.db_path = Some("/x".to_string());
    assert!(should_connect(&c, true));
    assert!(!should_connect(&c, false));
}
