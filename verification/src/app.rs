//! The application's state: which screen is shown, the configuration and
//! the database connection, and how it is put together at start.

use vstd::prelude::*;
use crate::configshandler::{
    find_template_by_label, has_label, is_first_with_label, Config, DefaultTemplate, Template,
};
use crate::dbadapt::DBConnection;
use crate::first_configuration::FirstConfigurationState;
use crate::home::Home;

verus! {

pub enum Screen {
    Home(Home),
    FirstConfiguration(FirstConfigurationState),
}

pub struct App {
    pub screen: Screen,
    pub config: Config,
    pub db: Box<dyn DBConnection>,
}


/// The default template that could not be found among the templates.
#[derive(Clone, Copy, Debug, PartialEq, Eq, Structural)]
pub enum MissingDefaultTemplate {
    NewReservation,
    UpdateReservation,
    DeleteReservation,
}

/// The three default templates are the first ones labelled with the names
/// that the configuration gives for them.
pub open spec fn defaults_found(ts: Seq<Template>, config: Config, d: DefaultTemplate) -> bool {
    &&& is_first_with_label(ts, config.new_reservation_name@, d.new_reservation@)
    &&& is_first_with_label(ts, config.update_reservation_name@, d.update_reservation@)
    &&& is_first_with_label(ts, config.delete_reservation_name@, d.delete_reservation@)
}

/// Which default template is missing first, in the order new, updated,
/// cancelled; `None` when all three are there.
pub open spec fn first_missing_default(ts: Seq<Template>, config: Config) -> Option<
    MissingDefaultTemplate,
> {
    if !has_label(ts, config.new_reservation_name@) {
        Some(MissingDefaultTemplate::NewReservation)
    } else if !has_label(ts, config.update_reservation_name@) {
        Some(MissingDefaultTemplate::UpdateReservation)
    } else if !has_label(ts, config.delete_reservation_name@) {
        Some(MissingDefaultTemplate::DeleteReservation)
    } else {
        None
    }
}

/// Copies of the templates the configuration names as defaults.
pub fn default_templates(templates: &Vec<Template>, config: &Config) -> (r: Result<
    DefaultTemplate,
    MissingDefaultTemplate,
>)
    ensures
        match first_missing_default(templates@, *config) {
            Some(m) => r == Err::<DefaultTemplate, MissingDefaultTemplate>(m),
            None => r matches Ok(d) && defaults_found(templates@, *config, d),
        },
{
    let new_reservation = match find_template_by_label(
        templates,
        config.new_reservation_name.as_str(),
    ) {
        Some(t) => t.clone(),
        None => return Err(MissingDefaultTemplate::NewReservation),
    };
    let update_reservation = match find_template_by_label(
        templates,
        config.update_reservation_name.as_str(),
    ) {
        Some(t) => t.clone(),
        None => return Err(MissingDefaultTemplate::UpdateReservation),
    };
    let delete_reservation = match find_template_by_label(
        templates,
        config.delete_reservation_name.as_str(),
    ) {
        Some(t) => t.clone(),
        None => return Err(MissingDefaultTemplate::DeleteReservation),
    };
    Ok(DefaultTemplate { new_reservation, update_reservation, delete_reservation })
}

/// A database connection is tried only when a file is configured and
/// exists.
pub fn should_connect(config: &Config, path_exists: bool) -> (r: bool)
    ensures
        r == (config.db_path is Some && path_exists),
{
    config.db_path.is_some() && path_exists
}

impl App {
    /// The application after start-up: the default templates are looked up
    /// (a missing one is an error); the home screen is shown when the
    /// configuration already existed, the set-up screen otherwise.
    pub fn new(
        config_existed: bool,
        config: Config,
        templates: &Vec<Template>,
        db: Box<dyn DBConnection>,
    ) -> (r: Result<App, MissingDefaultTemplate>)
        ensures
            match first_missing_default(templates@, config) {
                Some(m) => r is Err && r->Err_0 == m,
                None => r matches Ok(app) && app.config == config && app.db == db && if config_existed {
                    app.screen is Home
                } else {
                    app.screen matches Screen::FirstConfiguration(s) && s.stage
                        == crate::first_configuration::ConfStage::First && !s.finished
                        && defaults_found(templates@, config, s.default_template)
                        && s.editor_text@ == Seq::<char>::empty() && s.selected_panel
                        == crate::first_configuration::SelectedPanel::Unselected
                        && s.selected_db_type == crate::configshandler::DBTypes::NoDatabase
                        && s.selected_db_path is None && s.preview_headers@.len() == 0
                        && s.preview_rows@.len() == 0 && s.preview_error is None
                        && !s.preview_pending
                },
            },
    {
        let default_template = match default_templates(templates, &config) {
            Ok(d) => d,
            Err(m) => return Err(m),
        };
        let screen = if config_existed {
            Screen::Home(Home::new())
        } else {
            Screen::FirstConfiguration(FirstConfigurationState::new(default_template))
        };
        // The app is built around a stand-in connection, which is then
        // exchanged for the given one.
        let mut given = db;
        let mut app = App { screen, config, db: crate::dbadapt::empty() };
        std::mem::swap(&mut app.db, &mut given);
        Ok(app)
    }

    /// After a frame: a finished set-up gives way to the home screen;
    /// otherwise the screen stays.
    pub fn after_frame(&mut self)
        ensures
            final(self).config == old(self).config,
            final(self).db == old(self).db,
            match old(self).screen {
                Screen::FirstConfiguration(s) => if s.finished {
                    final(self).screen matches Screen::Home(h)
                        && h.screen == crate::home::Screen::Main
                } else {
                    final(self).screen == old(self).screen
                },
                Screen::Home(_) => final(self).screen == old(self).screen,
            },
    {
        let go_home = match &self.screen {
            Screen::FirstConfiguration(s) => s.finished,
            Screen::Home(_) => false,
        };
        if go_home {
            self.screen = Screen::Home(Home::new());
        }
    }
}

} // verus!
