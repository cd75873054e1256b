//! The settings page: what is configured, and how changes are saved.
use vstd::prelude::*;

use super::theme;
use crate::cloud;
use crate::error::Error;
use crate::list;
use crate::text;
use crate::text::{concat2, decimal_text, same_text};

verus! {

/// What the user configured.
#[derive(Debug)]
pub struct Settings {
    /// The picked theme; configurations that predate the picker have none.
    pub theme_name: Option<String>,
    /// Whether the theme is dark, for readers that know no names.
    pub dark_mode: bool,
    pub reporting_currency: String,
    pub refresh_interval_hours: u32,
}

impl Clone for Settings {
    fn clone(&self) -> (res: Self)
        ensures
            res == *self,
    {
        Settings {
            theme_name: crate::order::clone_text(&self.theme_name),
            dark_mode: self.dark_mode,
            reporting_currency: self.reporting_currency.clone(),
            refresh_interval_hours: self.refresh_interval_hours,
        }
    }
}

/// How the last action ended. Success and failure look different, so that one
/// cannot be mistaken for the other.
#[derive(Debug)]
pub enum StatusMessage {
    Success(String),
    Failure(String),
}

/// How a switch of the currency failed.
#[derive(Debug)]
pub enum SwitchFailure {
    /// The ledger still shows the old currency.
    Switch(Error),
    /// The ledger shows the new currency; only the save failed.
    Save(Error),
}

/// The page.
#[derive(Debug)]
pub struct SettingsView {
    pub config: Settings,
    pub save_status: Option<StatusMessage>,
    /// Grows whenever the status is set or cleared: a timer clears only the
    /// banner it was started for.
    pub status_generation: u64,
    /// A save is in flight.
    pub saving: bool,
    /// An edit came while a save was in flight; it is saved once that ends.
    pub save_pending: bool,
    /// Demo data is being loaded or cleared.
    pub demo_running: bool,
}

impl SettingsView {
    pub fn new(config: Settings) -> (res: SettingsView)
        ensures
            res.config == config,
            res.save_status is None,
            res.status_generation == 0,
            !res.saving,
            !res.save_pending,
            !res.demo_running,
    {
        SettingsView {
            config,
            save_status: None,
            status_generation: 0,
            saving: false,
            save_pending: false,
            demo_running: false,
        }
    }

    /// The banner is cleared, for a new edit supersedes the last outcome.
    fn clear_status(&mut self)
        requires
            old(self).status_generation < u64::MAX,
        ensures
            *final(self) == (SettingsView {
                save_status: None,
                status_generation: (old(self).status_generation + 1) as u64,
                ..*old(self)
            }),
    {
        self.save_status = None;
        self.status_generation = self.status_generation + 1;
    }

    /// Save what is configured; whether a save starts. While one is in flight
    /// the edit waits for it.
    pub fn save_config(&mut self) -> (res: bool)
        ensures
            res == !old(self).saving,
            *final(self) == (if old(self).saving {
                SettingsView { save_pending: true, ..*old(self) }
            } else {
                SettingsView { saving: true, ..*old(self) }
            }),
    {
        if self.saving {
            self.save_pending = true;
            return false;
        }
        self.saving = true;
        true
    }

    /// A save came back; whether another starts, for an edit that waited.
    /// Success is silent; a failure is said.
    pub fn config_saved(&mut self, result: Result<(), Error>) -> (res: bool)
        requires
            old(self).status_generation < u64::MAX,
        ensures
            res == old(self).save_pending,
            final(self).saving == res,
            !final(self).save_pending,
            final(self).config == old(self).config,
            final(self).demo_running == old(self).demo_running,
            match result {
                Ok(_) => {
                    &&& final(self).save_status == old(self).save_status
                    &&& final(self).status_generation == old(self).status_generation
                },
                Err(e) => {
                    &&& fails_with(final(self).save_status, "Save failed: "@ + e.message@)
                    &&& final(self).status_generation == old(self).status_generation + 1
                },
            },
    {
        self.saving = false;
        if let Err(e) = result {
            self.save_status = Some(StatusMessage::Failure(concat2("Save failed: ", &e.message)));
            self.status_generation = self.status_generation + 1;
        }
        self.save_waiting()
    }

    /// Save an edit that waited; whether a save starts.
    fn save_waiting(&mut self) -> (res: bool)
        requires
            !old(self).saving,
        ensures
            res == old(self).save_pending,
            *final(self) == (SettingsView { saving: res, save_pending: false, ..*old(self) }),
    {
        if self.save_pending {
            self.save_pending = false;
            return self.save_config();
        }
        false
    }

    /// Pick a theme; whether a save starts. `dark` says whether the theme is
    /// dark, and is none for a name that is not known, which is not remembered.
    pub fn set_theme(&mut self, name: &str, dark: Option<bool>) -> (res: bool)
        requires
            old(self).status_generation < u64::MAX,
        ensures
            final(self).save_status is None,
            final(self).status_generation == old(self).status_generation + 1,
            final(self).demo_running == old(self).demo_running,
            final(self).config.reporting_currency == old(self).config.reporting_currency,
            final(self).config.refresh_interval_hours == old(self).config.refresh_interval_hours,
            match dark {
                Some(dark) => {
                    &&& res == !old(self).saving
                    &&& final(self).saving
                    &&& final(self).save_pending == (old(self).save_pending || old(self).saving)
                    &&& final(self).config.dark_mode == dark
                    &&& final(self).config.theme_name is Some
                    &&& final(self).config.theme_name->0@ == name@
                },
                None => {
                    &&& !res
                    &&& final(self).saving == old(self).saving
                    &&& final(self).save_pending == old(self).save_pending
                    &&& final(self).config == old(self).config
                },
            },
    {
        self.clear_status();
        match dark {
            Some(dark) => {
                self.config.dark_mode = dark;
                self.config.theme_name = Some(name.to_owned());
                self.save_config()
            },
            None => false,
        }
    }

    /// Change the currency that amounts are shown in; the currency before, or
    /// nothing while a save is in flight, which a switch would race.
    pub fn set_reporting_currency(&mut self, currency: &str) -> (res: Option<String>)
        requires
            old(self).status_generation < u64::MAX,
        ensures
            res is Some <==> !old(self).saving,
            res is None ==> *final(self) == *old(self),
            res is Some ==> {
                &&& res->0@ == old(self).config.reporting_currency@
                &&& final(self).saving
                &&& final(self).save_status is None
                &&& final(self).status_generation == old(self).status_generation + 1
                &&& final(self).save_pending == old(self).save_pending
                &&& final(self).demo_running == old(self).demo_running
                &&& final(self).config.reporting_currency@ == currency@
                &&& final(self).config.theme_name == old(self).config.theme_name
                &&& final(self).config.dark_mode == old(self).config.dark_mode
                &&& final(self).config.refresh_interval_hours
                    == old(self).config.refresh_interval_hours
            },
    {
        if self.saving {
            return None;
        }
        self.clear_status();
        let previous = self.config.reporting_currency.clone();
        self.config.reporting_currency = currency.to_owned();
        self.saving = true;
        Some(previous)
    }

    /// A switch of the currency came back; whether another save starts, for an
    /// edit that waited. A switch that failed puts the selection back; a success
    /// is to fade under the status generation.
    pub fn currency_switched(&mut self, result: Result<(), SwitchFailure>, previous: String) -> (res:
        bool)
        requires
            old(self).status_generation < u64::MAX,
        ensures
            res == old(self).save_pending,
            final(self).saving == res,
            !final(self).save_pending,
            final(self).demo_running == old(self).demo_running,
            final(self).status_generation == old(self).status_generation + 1,
            final(self).config.theme_name == old(self).config.theme_name,
            final(self).config.dark_mode == old(self).config.dark_mode,
            final(self).config.refresh_interval_hours == old(self).config.refresh_interval_hours,
            match result {
                Ok(_) => {
                    &&& succeeds_with(final(self).save_status, "Settings saved"@)
                    &&& final(self).config.reporting_currency
                        == old(self).config.reporting_currency
                },
                Err(SwitchFailure::Switch(e)) => {
                    &&& fails_with(
                        final(self).save_status,
                        "Could not switch currency: "@ + e.message@,
                    )
                    &&& final(self).config.reporting_currency == previous
                },
                Err(SwitchFailure::Save(e)) => {
                    &&& fails_with(final(self).save_status, "Save failed: "@ + e.message@)
                    &&& final(self).config.reporting_currency
                        == old(self).config.reporting_currency
                },
            },
    {
        self.saving = false;
        let status = match result {
            Ok(_) => StatusMessage::Success("Settings saved".to_owned()),
            Err(SwitchFailure::Switch(e)) => {
                self.config.reporting_currency = previous;
                StatusMessage::Failure(concat2("Could not switch currency: ", &e.message))
            },
            Err(SwitchFailure::Save(e)) => {
                StatusMessage::Failure(concat2("Save failed: ", &e.message))
            },
        };
        self.save_status = Some(status);
        self.status_generation = self.status_generation + 1;
        self.save_waiting()
    }

    /// Change how long a period stays fresh; whether a save starts. Nothing is
    /// fetched for it.
    pub fn set_refresh_interval(&mut self, hours: u32) -> (res: bool)
        requires
            old(self).status_generation < u64::MAX,
        ensures
            res == !old(self).saving,
            final(self).saving,
            final(self).save_pending == (old(self).save_pending || old(self).saving),
            final(self).save_status is None,
            final(self).status_generation == old(self).status_generation + 1,
            final(self).demo_running == old(self).demo_running,
            final(self).config == (Settings {
                refresh_interval_hours: hours,
                ..old(self).config
            }),
    {
        self.clear_status();
        self.config.refresh_interval_hours = hours;
        self.save_config()
    }

    /// Load or clear the demo data, unless that is under way; whether it starts.
    pub fn set_demo_data(&mut self) -> (res: bool)
        requires
            old(self).status_generation < u64::MAX,
        ensures
            res == !old(self).demo_running,
            !res ==> *final(self) == *old(self),
            res ==> *final(self) == (SettingsView {
                demo_running: true,
                save_status: None,
                status_generation: (old(self).status_generation + 1) as u64,
                ..*old(self)
            }),
    {
        if self.demo_running {
            return false;
        }
        self.demo_running = true;
        self.clear_status();
        true
    }

    /// The demo data came back with a summary; whether the pages are to reload.
    pub fn demo_done(&mut self, result: Result<String, Error>) -> (res: bool)
        requires
            old(self).status_generation < u64::MAX,
        ensures
            res == (result is Ok),
            !final(self).demo_running,
            final(self).config == old(self).config,
            final(self).saving == old(self).saving,
            final(self).save_pending == old(self).save_pending,
            final(self).status_generation == old(self).status_generation + 1,
            match result {
                Ok(summary) => succeeds_with(final(self).save_status, summary@),
                Err(e) => fails_with(final(self).save_status, "Demo data failed: "@ + e.message@),
            },
    {
        self.demo_running = false;
        let loaded = result.is_ok();
        let status = match result {
            Ok(summary) => StatusMessage::Success(summary),
            Err(e) => StatusMessage::Failure(concat2("Demo data failed: ", &e.message)),
        };
        self.save_status = Some(status);
        self.status_generation = self.status_generation + 1;
        loaded
    }

    /// The time of a success banner ran out. A banner that was set since is left
    /// alone, and a failure stays until the next action answers it.
    pub fn fade_status(&mut self, generation: u64)
        ensures
            *final(self) == (if old(self).status_generation == generation && is_success(
                old(self).save_status,
            ) {
                SettingsView { save_status: None, ..*old(self) }
            } else {
                *old(self)
            }),
    {
        if self.status_generation == generation {
            if let Some(StatusMessage::Success(_)) = &self.save_status {
                self.save_status = None;
            }
        }
    }
}

pub open spec fn is_success(status: Option<StatusMessage>) -> bool {
    match status {
        Some(StatusMessage::Success(_)) => true,
        _ => false,
    }
}

/// The banner says that an action succeeded.
pub open spec fn succeeds_with(status: Option<StatusMessage>, words: Seq<char>) -> bool {
    match status {
        Some(StatusMessage::Success(message)) => message@ == words,
        _ => false,
    }
}

/// The banner says that an action failed.
pub open spec fn fails_with(status: Option<StatusMessage>, words: Seq<char>) -> bool {
    match status {
        Some(StatusMessage::Failure(message)) => message@ == words,
        _ => false,
    }
}

// ==================== The theme picker ====================

/// Being called by a name.
pub open spec fn is_called(name: Seq<char>) -> spec_fn(String) -> bool {
    |other: String| other@ == name
}

/// Where a theme stands in the picker, if it is listed.
pub fn theme_position(names: &Vec<String>, name: &str) -> (res: Option<usize>)
    ensures
        match list::first_index(names@, is_called(name@)) {
            Some(i) => res == Some(i as usize) && 0 <= i < names@.len(),
            None => res is None,
        },
{
    let accepts = |other: &String| -> (b: bool)
        ensures
            b == (other@ == name@)
        { same_text(other, name) };
    list::position(names, accepts, Ghost(is_called(name@)))
}

/// What a theme is called in the picker.
pub fn theme_title(name: &str, dark: bool) -> (res: String)
    ensures
        res@ == (if dark {
            name@ + " (dark)"@
        } else {
            name@
        }),
{
    if dark {
        concat2(name, " (dark)")
    } else {
        name.to_owned()
    }
}

/// The theme that is picked: the remembered one, or the one that the dark flag
/// of an old configuration stands for.
pub open spec fn picked_theme(config: Settings) -> Seq<char> {
    match config.theme_name {
        Some(name) => name@,
        None => if config.dark_mode {
            theme::DARK_THEME_NAME@
        } else {
            theme::LIGHT_THEME_NAME@
        },
    }
}

/// The theme that is picked.
pub fn current_theme(config: &Settings) -> (res: String)
    ensures
        res@ == picked_theme(*config),
{
    match &config.theme_name {
        Some(name) => name.clone(),
        None => theme::named_theme(config.dark_mode).to_owned(),
    }
}

// ==================== What is shown ====================

/// One choice of a setting.
#[derive(Debug)]
pub struct SettingChoice {
    pub id: String,
    pub label: String,
    pub selected: bool,
    /// Whether a save of it is in flight.
    pub loading: bool,
    pub disabled: bool,
}

pub open spec fn is_currency_choice(
    choice: SettingChoice,
    currency: Seq<char>,
    view: SettingsView,
) -> bool {
    let selected = currency == view.config.reporting_currency@;
    &&& choice.id@ == "currency-"@ + currency
    &&& choice.label@ == currency
    &&& choice.selected == selected
    &&& choice.loading == (view.saving && selected)
    &&& choice.disabled == view.saving
}

pub open spec fn is_interval_choice(choice: SettingChoice, hours: u32, view: SettingsView) -> bool {
    &&& choice.id@ == "refresh-"@ + text::decimal(hours as nat) + "h"@
    &&& choice.label@ == text::decimal(hours as nat) + "h"@
    &&& choice.selected == (hours == view.config.refresh_interval_hours)
    &&& !choice.loading
    &&& choice.disabled == view.saving
}

/// A section of the page: its title, and the label and the note of its setting.
#[derive(Clone, Copy, Debug)]
pub struct SettingSection {
    pub title: &'static str,
    pub label: Option<&'static str>,
    pub note: Option<&'static str>,
}

impl SettingSection {
    pub open spec fn shown(self) -> (Seq<char>, Option<Seq<char>>, Option<Seq<char>>) {
        (self.title@, cloud::label_view(self.label), cloud::label_view(self.note))
    }
}

/// The sections of the page, from the top.
pub open spec fn sections_shown() -> Seq<(Seq<char>, Option<Seq<char>>, Option<Seq<char>>)> {
    seq![
        (
            "Appearance"@,
            Some("Theme"@),
            Some("Applies immediately and is remembered across launches"@),
        ),
        (
            "Reporting"@,
            Some("Currency"@),
            Some(
                "Totals are converted to this currency. Charges keep the currency they were billed in."@,
            ),
        ),
        (
            "Refreshing"@,
            Some("Refresh interval"@),
            Some(
                "A billing period is fetched again only once this has passed. Longer is cheaper: AWS Cost Explorer bills per request. Force Refresh ignores it; an imported bill file is never re-fetched."@,
            ),
        ),
        (
            "Demo data"@,
            None,
            Some(
                "Twelve months of fake but realistic spend across three demo accounts, for design review. Demo rows never touch a real API."@,
            ),
        ),
        ("About"@, None, None),
    ]
}

/// The sections of the page, from the top.
pub fn setting_sections() -> (res: Vec<SettingSection>)
    ensures
        res@.map_values(|s: SettingSection| s.shown()) == sections_shown(),
{
    let mut sections: Vec<SettingSection> = Vec::new();
    sections.push(
        SettingSection {
            title: "Appearance",
            label: Some("Theme"),
            note: Some("Applies immediately and is remembered across launches"),
        },
    );
    sections.push(
        SettingSection {
            title: "Reporting",
            label: Some("Currency"),
            note: Some(
                "Totals are converted to this currency. Charges keep the currency they were billed in.",
            ),
        },
    );
    sections.push(
        SettingSection {
            title: "Refreshing",
            label: Some("Refresh interval"),
            note: Some(
                "A billing period is fetched again only once this has passed. Longer is cheaper: AWS Cost Explorer bills per request. Force Refresh ignores it; an imported bill file is never re-fetched.",
            ),
        },
    );
    sections.push(
        SettingSection {
            title: "Demo data",
            label: None,
            note: Some(
                "Twelve months of fake but realistic spend across three demo accounts, for design review. Demo rows never touch a real API.",
            ),
        },
    );
    sections.push(SettingSection { title: "About", label: None, note: None });
    proof {
        assert(sections@.map_values(|s: SettingSection| s.shown()) =~= sections_shown());
    }
    sections
}

/// What the page shows.
#[derive(Debug)]
pub struct SettingsScreen {
    pub title: &'static str,
    pub caption: &'static str,
    /// What became of the last save, and whether it succeeded.
    pub banner: Option<(String, bool)>,
    pub sections: Vec<SettingSection>,
    pub currencies: Vec<SettingChoice>,
    pub intervals: Vec<SettingChoice>,
    pub load_demo_label: &'static str,
    pub clear_demo_label: &'static str,
    /// Demo data is being loaded or cleared, so neither button works.
    pub demo_disabled: bool,
    /// Where the theme that is picked stands in the picker, if it is listed.
    pub theme: Option<usize>,
    /// What the last section says, each row a label and a text.
    pub about: Vec<(&'static str, String)>,
}

/// The rows of the last section.
pub open spec fn about_shown(version: Seq<char>) -> Seq<(Seq<char>, Seq<char>)> {
    seq![("Version:"@, version), ("Built with:"@, "GPUI + Rust"@)]
}

/// The banner over the sections.
pub open spec fn banner_shown(status: Option<StatusMessage>) -> Option<(Seq<char>, bool)> {
    match status {
        Some(StatusMessage::Success(message)) => Some((message@, true)),
        Some(StatusMessage::Failure(message)) => Some((message@, false)),
        None => None,
    }
}

/// What the page shows: a choice for each currency and each interval, disabled
/// while a save is in flight, and the demo buttons, disabled while demo data is
/// being loaded or cleared. The picker of `themes` opens on the one that is picked.
pub fn settings_screen(
    view: &SettingsView,
    currencies: &Vec<String>,
    intervals: &Vec<u32>,
    themes: &Vec<String>,
    version: &str,
) -> (res: SettingsScreen)
    ensures
        res.title@ == "Settings"@,
        res.caption@ == "Saved locally and applied across every page"@,
        match banner_shown(view.save_status) {
            Some((message, success)) => res.banner is Some && (res.banner->0).0@ == message && (
            res.banner->0).1 == success,
            None => res.banner is None,
        },
        res.sections@.map_values(|s: SettingSection| s.shown()) == sections_shown(),
        res.load_demo_label@ == "Load demo data"@,
        res.clear_demo_label@ == "Clear demo data"@,
        res.currencies@.len() == currencies@.len(),
        forall|i: int|
            #![trigger res.currencies@[i]]
            0 <= i < res.currencies@.len() ==> is_currency_choice(
                res.currencies@[i],
                currencies@[i]@,
                *view,
            ),
        res.intervals@.len() == intervals@.len(),
        forall|i: int|
            #![trigger res.intervals@[i]]
            0 <= i < res.intervals@.len() ==> is_interval_choice(
                res.intervals@[i],
                intervals@[i],
                *view,
            ),
        res.demo_disabled == view.demo_running,
        match list::first_index(themes@, is_called(picked_theme(view.config))) {
            Some(i) => res.theme == Some(i as usize) && 0 <= i < themes@.len(),
            None => res.theme is None,
        },
        res.about@.map_values(|row: (&'static str, String)| (row.0@, row.1@)) == about_shown(
            version@,
        ),
{
    let mut currency_choices: Vec<SettingChoice> = Vec::new();
    let mut i: usize = 0;
    while i < currencies.len()
        invariant
            i <= currencies.len(),
            currency_choices@.len() == i,
            forall|k: int|
                #![trigger currency_choices@[k]]
                0 <= k < i ==> is_currency_choice(currency_choices@[k], currencies@[k]@, *view),
        decreases currencies.len() - i,
    {
        let selected = same_text(&currencies[i], &view.config.reporting_currency);
        currency_choices.push(
            SettingChoice {
                id: concat2("currency-", &currencies[i]),
                label: currencies[i].clone(),
                selected,
                loading: view.saving && selected,
                disabled: view.saving,
            },
        );
        i = i + 1;
    }
    let mut interval_choices: Vec<SettingChoice> = Vec::new();
    let mut n: usize = 0;
    while n < intervals.len()
        invariant
            n <= intervals.len(),
            interval_choices@.len() == n,
            forall|k: int|
                #![trigger interval_choices@[k]]
                0 <= k < n ==> is_interval_choice(interval_choices@[k], intervals@[k], *view),
        decreases intervals.len() - n,
    {
        let hours: u32 = intervals[n];
        let mut id = concat2("refresh-", &decimal_text(hours as u64));
        id.append("h");
        interval_choices.push(
            SettingChoice {
                id,
                label: concat2(&decimal_text(hours as u64), "h"),
                selected: hours == view.config.refresh_interval_hours,
                loading: false,
                disabled: view.saving,
            },
        );
        n = n + 1;
    }
    let banner = match &view.save_status {
        Some(StatusMessage::Success(message)) => Some((message.clone(), true)),
        Some(StatusMessage::Failure(message)) => Some((message.clone(), false)),
        None => None,
    };
    let current = current_theme(&view.config);
    let mut about: Vec<(&'static str, String)> = Vec::new();
    about.push(("Version:", version.to_owned()));
    about.push(("Built with:", "GPUI + Rust".to_owned()));
    proof {
        assert(about@.map_values(|row: (&'static str, String)| (row.0@, row.1@)) =~= about_shown(
            version@,
        ));
    }
    SettingsScreen {
        title: "Settings",
        caption: "Saved locally and applied across every page",
        banner,
        sections: setting_sections(),
        currencies: currency_choices,
        intervals: interval_choices,
        load_demo_label: "Load demo data",
        clear_demo_label: "Clear demo data",
        demo_disabled: view.demo_running,
        theme: theme_position(themes, &current),
        about,
    }
}

} // verus!
