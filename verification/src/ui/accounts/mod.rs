//! The accounts page: the table of accounts, a dialog that adds one and a dialog
//! that deletes one, and the banners that say what became of an action.
use vstd::prelude::*;

pub mod form;
pub mod health;
pub mod table;

use self::form::{AccountDraft, AccountForm, FillStatus};
use self::health::AccountsHealth;
use super::data::accounts::AccountsData;
use crate::calendar::Timestamp;
use crate::cloud;
use crate::cloud::{FoundCredentials, SourceContext, SourceDescriptor};
use crate::db;
use crate::error::Error;
use crate::identity;
use crate::ingest;
use crate::ingest::{ImportOutcome, RefreshOutcome, ReplayOutcome};
use crate::list;
use crate::model::CloudAccount;
use crate::order;
use crate::text;
use crate::text::{concat2, concat3, decimal_text, same_text};

verus! {

// ==================== Banners ====================

/// What the page says about the last action.
#[derive(Debug)]
pub struct Banners {
    pub error: Option<String>,
    pub success: Option<String>,
    /// What is said while an action runs.
    pub info: Option<String>,
    /// Grows whenever a banner is set that must not fade with an earlier one.
    pub generation: u64,
}

/// `text` is said, or nothing is.
pub open spec fn says(banner: Option<String>, text: Option<Seq<char>>) -> bool {
    order::part_view(banner) == text
}

/// What the three banners say: the error, the success and the info.
pub open spec fn say(
    banners: Banners,
    error: Option<Seq<char>>,
    success: Option<Seq<char>>,
    info: Option<Seq<char>>,
) -> bool {
    &&& says(banners.error, error)
    &&& says(banners.success, success)
    &&& says(banners.info, info)
}

/// An action runs: its banner stays until the action reports.
pub open spec fn progresses(after: Banners, before: Banners, message: Seq<char>) -> bool {
    say(after, None, None, Some(message)) && after.generation == before.generation + 1
}

/// An action succeeded: its banner fades in time.
pub open spec fn succeeds(after: Banners, before: Banners, message: Seq<char>) -> bool {
    say(after, None, Some(message), None) && after.generation == before.generation + 1
}

/// An action failed: its banner stays.
pub open spec fn fails(after: Banners, before: Banners, message: Seq<char>) -> bool {
    say(after, Some(message), None, None) && after.generation == before.generation
}

impl Banners {
    fn progress(&mut self, message: String)
        requires
            old(self).generation < u64::MAX,
        ensures
            progresses(*final(self), *old(self), message@),
    {
        self.error = None;
        self.success = None;
        self.info = Some(message);
        self.generation = self.generation + 1;
    }

    /// The generation that comes back is that of the banner's fade.
    fn succeed(&mut self, message: String) -> (res: u64)
        requires
            old(self).generation < u64::MAX,
        ensures
            succeeds(*final(self), *old(self), message@),
            res == final(self).generation,
    {
        self.error = None;
        self.success = Some(message);
        self.info = None;
        self.generation = self.generation + 1;
        self.generation
    }

    fn fail(&mut self, message: String)
        ensures
            fails(*final(self), *old(self), message@),
    {
        self.error = Some(message);
        self.success = None;
        self.info = None;
    }

    /// The banners once the time of a fade is up. A banner that was set since is
    /// left alone, and an error never fades.
    pub open spec fn faded(self, generation: u64) -> Banners {
        if generation == self.generation {
            Banners { success: None, info: None, ..self }
        } else {
            self
        }
    }

    /// The time of a fade is up.
    pub fn fade(&mut self, generation: u64)
        ensures
            *final(self) == old(self).faded(generation),
    {
        if self.generation == generation {
            self.success = None;
            self.info = None;
        }
    }
}

/// A banner is safe from the fade of any banner before it.
pub proof fn an_old_fade_changes_nothing(
    before: Banners,
    after: Banners,
    message: Seq<char>,
    generation: u64,
)
    requires
        progresses(after, before, message) || succeeds(after, before, message),
        generation <= before.generation,
    ensures
        after.faded(generation) == after,
{
}

// ==================== Accounts at work ====================

/// Being a given id.
pub open spec fn is_id(id: Seq<char>) -> spec_fn(String) -> bool {
    |other: String| other@ == id
}

/// `after` is `before` with `id` among it.
pub open spec fn id_added(after: Seq<String>, before: Seq<String>, id: Seq<char>) -> bool {
    if order::lists(before, id) {
        after == before
    } else {
        after.len() == before.len() + 1 && after.drop_last() == before && after.last()@ == id
    }
}

/// Put `id` among `ids`; false where it was there.
fn add_id(ids: &mut Vec<String>, id: &str) -> (res: bool)
    ensures
        res == !order::lists(old(ids)@, id@),
        id_added(final(ids)@, old(ids)@, id@),
{
    if order::is_listed(ids, id) {
        return false;
    }
    let ghost before = ids@;
    ids.push(id.to_owned());
    proof {
        assert(ids@.drop_last() =~= before);
    }
    true
}

fn drop_id(ids: &mut Vec<String>, id: &str)
    ensures
        final(ids)@ == list::without(old(ids)@, is_id(id@)),
{
    list::drop_where(
        ids,
        |other: &String| -> (b: bool)
            ensures
                b == (other@ == id@)
            { same_text(other, id) },
        Ghost(is_id(id@)),
    );
}

/// An action on an account ends as it began: once its id is added and dropped
/// again, it is as though it never ran.
pub proof fn finished_work_leaves_no_trace(before: Seq<String>, during: Seq<String>, id: Seq<char>)
    requires
        !order::lists(before, id),
        id_added(during, before, id),
    ensures
        list::without(during, is_id(id)) == before,
{
    reveal(Seq::filter);
    let keep = list::refused(is_id(id));
    assert(during.drop_last() == before);
    assert(before.filter(keep) =~= before) by {
        lemma_filter_of_all(before, keep);
    }
}

proof fn lemma_filter_of_all(items: Seq<String>, keep: spec_fn(String) -> bool)
    requires
        forall|i: int| 0 <= i < items.len() ==> keep(#[trigger] items[i]),
    ensures
        items.filter(keep) == items,
    decreases items.len(),
{
    reveal(Seq::filter);
    if items.len() > 0 {
        assert forall|i: int| 0 <= i < items.drop_last().len() implies keep(
            #[trigger] items.drop_last()[i],
        ) by {
            assert(items.drop_last()[i] == items[i]);
        }
        lemma_filter_of_all(items.drop_last(), keep);
        assert(keep(items[items.len() - 1]));
        assert(items.drop_last().push(items.last()) =~= items);
    }
}

// ==================== The page ====================

/// The page.
#[derive(Debug)]
pub struct AccountsView {
    pub accounts: Vec<CloudAccount>,
    /// The table and the cards, once the first load landed.
    pub accounts_data: Option<AccountsData>,
    /// The findings on the data. Hidden until a load brings them and after they
    /// were dismissed.
    pub health: Option<AccountsHealth>,
    /// A load of the table is in flight.
    pub loading_data: bool,
    /// An account is being saved.
    pub saving: bool,
    /// The accounts that are being validated, imported into and deleted.
    pub validating_ids: Vec<String>,
    pub importing_ids: Vec<String>,
    pub deleting_ids: Vec<String>,
    pub show_add_dialog: bool,
    /// Another page asked for the dialog that adds an account.
    pub open_add_dialog_requested: bool,
    /// What is wrong inside that dialog.
    pub dialog_error: Option<String>,
    /// The account that awaits the confirmation of its deletion.
    pub pending_delete: Option<String>,
    pub banners: Banners,
    pub form: AccountForm,
    /// The source of the account that is being added.
    pub selected_source: SourceDescriptor,
    pub fill_status: Option<FillStatus>,
}

/// What follows once an account was saved.
#[derive(Clone, Copy, PartialEq, Eq, Structural, Debug)]
pub enum AfterSave {
    /// It was not saved.
    Nothing,
    /// Its bill is fetched.
    Fetch,
    /// The banner of this generation fades.
    Fade(u64),
}

/// What is said of an account whose source is not known.
pub open spec fn unknown_source(name: Seq<char>) -> Seq<char> {
    "Account "@ + name + " uses an unknown billing source"@
}

/// What is said of an account's first bill.
pub open spec fn first_bill_text(name: Seq<char>, outcome: RefreshOutcome) -> Seq<char> {
    if outcome.ingested@.len() == 0 {
        "Added "@ + name + ". No bill to fetch yet."@
    } else {
        "Added "@ + name + " and fetched "@ + text::decimal(
            ingest::charges_of(outcome.ingested@),
        ) + " charge(s)."@
    }
}

/// What is said of an import: which months were replaced, not merely that
/// something was imported.
pub open spec fn import_text(name: Seq<char>, outcome: ImportOutcome) -> Seq<char> {
    "Imported "@ + text::decimal(ingest::charges_of(outcome.periods@)) + " charge(s) into "@ + name
        + " from its "@ + outcome.format@ + ", replacing "@ + text::joined(
        ingest::labels_of(outcome.periods@),
        ", "@,
    )
}

/// What is said of an import into the account `name`.
pub fn import_message(name: &str, outcome: &ImportOutcome) -> (res: String)
    requires
        ingest::charges_of(outcome.periods@) <= usize::MAX,
    ensures
        res@ == import_text(name@, *outcome),
{
    let mut out = concat3("Imported ", &decimal_text(outcome.charges() as u64), " charge(s) into ");
    out.append(name);
    out.append(" from its ");
    out.append(outcome.format);
    out.append(", replacing ");
    out.append(&outcome.period_labels());
    out
}

/// What is said where the file picker does not open.
pub fn picker_message(error: &str) -> (res: String)
    ensures
        res@ == "Could not open the file picker: "@ + error@,
{
    concat2("Could not open the file picker: ", error)
}

impl AccountsView {
    /// An empty page, before its first load.
    pub fn new() -> (res: AccountsView)
        ensures
            res.accounts@.len() == 0,
            res.accounts_data is None,
            res.health is None,
            !res.loading_data,
            !res.saving,
            res.validating_ids@.len() == 0,
            res.importing_ids@.len() == 0,
            res.deleting_ids@.len() == 0,
            !res.show_add_dialog,
            !res.open_add_dialog_requested,
            res.dialog_error is None,
            res.pending_delete is None,
            say(res.banners, None, None, None),
            res.banners.generation == 0,
            res.form.name@.len() == 0,
            res.form.access_key@.len() == 0,
            res.form.secret_key@.len() == 0,
            res.form.region@ == "us-east-1"@,
            res.form.export_uri@.len() == 0,
            res.form.access_key_placeholder@ == "Access Key ID"@,
            res.form.secret_key_placeholder@ == "Secret Access Key"@,
            res.form.region_placeholder@ == "Region (optional, default us-east-1)"@,
            res.selected_source@ == cloud::sources()[0],
            res.fill_status is None,
    {
        AccountsView {
            accounts: Vec::new(),
            accounts_data: None,
            health: None,
            loading_data: false,
            saving: false,
            validating_ids: Vec::new(),
            importing_ids: Vec::new(),
            deleting_ids: Vec::new(),
            show_add_dialog: false,
            open_add_dialog_requested: false,
            dialog_error: None,
            pending_delete: None,
            banners: Banners { error: None, success: None, info: None, generation: 0 },
            form: AccountForm::new(),
            selected_source: cloud::default_source(),
            fill_status: None,
        }
    }

    // ==================== Loads ====================

    /// Start the first load of the accounts and the table, unless it ran or
    /// runs; whether it starts.
    pub fn ensure_loaded(&mut self) -> (res: bool)
        ensures
            res == (old(self).accounts_data is None && !old(self).loading_data),
            *final(self) == (AccountsView {
                loading_data: old(self).loading_data || res,
                ..*old(self)
            }),
    {
        if self.accounts_data.is_none() && !self.loading_data {
            self.loading_data = true;
            return true;
        }
        false
    }

    /// Reload the accounts, and the table unless a load is in flight; whether
    /// the table's load starts.
    pub fn reload(&mut self) -> (res: bool)
        ensures
            res == !old(self).loading_data,
            *final(self) == (AccountsView { loading_data: true, ..*old(self) }),
    {
        let starts = !self.loading_data;
        self.loading_data = true;
        starts
    }

    /// The accounts came back.
    pub fn accounts_loaded(&mut self, result: Result<Vec<CloudAccount>, Error>)
        ensures
            match result {
                Ok(accounts) => *final(self) == (AccountsView {
                    accounts,
                    banners: Banners { error: None, ..old(self).banners },
                    ..*old(self)
                }),
                Err(e) => {
                    &&& *final(self) == (AccountsView {
                        banners: Banners {
                            error: final(self).banners.error,
                            ..old(self).banners
                        },
                        ..*old(self)
                    })
                    &&& says(
                        final(self).banners.error,
                        Some("Failed to load accounts: "@ + e.message@),
                    )
                },
            },
    {
        match result {
            Ok(accounts) => {
                self.accounts = accounts;
                self.banners.error = None;
            },
            Err(e) => {
                self.banners.error = Some(concat2("Failed to load accounts: ", &e.message));
            },
        }
    }

    /// The table came back, and the findings on the data with it. Findings that
    /// could not be read leave the card as it is.
    pub fn data_loaded(
        &mut self,
        result: Result<AccountsData, Error>,
        health: Option<AccountsHealth>,
    )
        ensures
            final(self).health == (match health {
                Some(health) => Some(health),
                None => old(self).health,
            }),
            match result {
                Ok(loaded) => *final(self) == (AccountsView {
                    loading_data: false,
                    health: final(self).health,
                    accounts_data: Some(loaded),
                    ..*old(self)
                }),
                Err(e) => {
                    &&& *final(self) == (AccountsView {
                        loading_data: false,
                        health: final(self).health,
                        banners: Banners {
                            error: final(self).banners.error,
                            ..old(self).banners
                        },
                        ..*old(self)
                    })
                    &&& says(
                        final(self).banners.error,
                        Some("Failed to load account data: "@ + e.message@),
                    )
                },
            },
    {
        self.loading_data = false;
        if let Some(health) = health {
            self.health = Some(health);
        }
        match result {
            Ok(loaded) => {
                self.accounts_data = Some(loaded);
            },
            Err(e) => {
                self.banners.error = Some(concat2("Failed to load account data: ", &e.message));
            },
        }
    }

    /// Hide the findings until the next load; the keys to dismiss.
    pub fn dismiss_health(&mut self) -> (res: Vec<String>)
        ensures
            *final(self) == (AccountsView { health: None, ..*old(self) }),
            match old(self).health {
                Some(health) => res == health.dismiss_keys,
                None => res@.len() == 0,
            },
    {
        match self.health.take() {
            Some(health) => health.dismiss_keys,
            None => Vec::new(),
        }
    }

    // ==================== Replay ====================

    /// Re-normalize what is stored.
    pub fn replay_normalization(&mut self)
        requires
            old(self).banners.generation < u64::MAX,
        ensures
            *final(self) == (AccountsView { banners: final(self).banners, ..*old(self) }),
            progresses(
                final(self).banners,
                old(self).banners,
                "Replaying normalization from the raw store..."@,
            ),
    {
        self.banners.progress("Replaying normalization from the raw store...".to_owned());
    }

    /// What is stored was re-normalized, or not. A load of the table follows a
    /// success; the generation of its banner's fade.
    pub fn replayed(&mut self, result: Result<ReplayOutcome, Error>) -> (res: Option<u64>)
        requires
            old(self).banners.generation < u64::MAX,
        ensures
            res is Some <==> result is Ok,
            res is Some ==> res->0 == final(self).banners.generation,
            *final(self) == (AccountsView {
                banners: final(self).banners,
                loading_data: old(self).loading_data || result is Ok,
                ..*old(self)
            }),
            match result {
                Ok(outcome) => succeeds(
                    final(self).banners,
                    old(self).banners,
                    "Re-normalized "@ + text::decimal(outcome.periods as nat) + " period(s), "@
                        + text::decimal(outcome.charges as nat) + " charge(s) written"@,
                ),
                Err(e) => fails(final(self).banners, old(self).banners, e.message@),
            },
    {
        match result {
            Ok(outcome) => {
                let mut message = concat3(
                    "Re-normalized ",
                    &decimal_text(outcome.periods as u64),
                    " period(s), ",
                );
                message.append(&decimal_text(outcome.charges as u64));
                message.append(" charge(s) written");
                self.loading_data = true;
                Some(self.banners.succeed(message))
            },
            Err(e) => {
                self.banners.fail(e.message);
                None
            },
        }
    }

    // ==================== Adding ====================

    /// Ask for the dialog that adds an account, from another page.
    pub fn request_add_dialog(&mut self)
        ensures
            *final(self) == (AccountsView { open_add_dialog_requested: true, ..*old(self) }),
    {
        self.open_add_dialog_requested = true;
    }

    /// The page with the dialog open: its source the default one, and nothing
    /// said. The fields are as they were left.
    pub open spec fn opens_dialog(self, before: AccountsView) -> bool {
        &&& self == (AccountsView {
            show_add_dialog: true,
            selected_source: self.selected_source,
            fill_status: None,
            dialog_error: None,
            banners: Banners { error: None, success: None, info: None, ..before.banners },
            ..before
        })
        &&& self.selected_source@ == cloud::sources()[0]
    }

    pub fn show_add_dialog(&mut self)
        ensures
            final(self).opens_dialog(*old(self)),
    {
        self.show_add_dialog = true;
        self.selected_source = cloud::default_source();
        self.fill_status = None;
        self.dialog_error = None;
        self.banners.error = None;
        self.banners.success = None;
        self.banners.info = None;
    }

    /// Open the dialog where another page asked for it.
    pub fn open_requested(&mut self)
        ensures
            if old(self).open_add_dialog_requested {
                final(self).opens_dialog(
                    (AccountsView { open_add_dialog_requested: false, ..*old(self) }),
                )
            } else {
                *final(self) == *old(self)
            },
    {
        if self.open_add_dialog_requested {
            self.open_add_dialog_requested = false;
            self.show_add_dialog();
        }
    }

    pub fn hide_add_dialog(&mut self)
        ensures
            *final(self) == (AccountsView { show_add_dialog: false, ..*old(self) }),
    {
        self.show_add_dialog = false;
    }

    /// Select the source of the account that is being added. What the last fill
    /// found was about the source being left.
    pub fn set_source(&mut self, source: SourceDescriptor)
        ensures
            *final(self) == (AccountsView {
                selected_source: source,
                fill_status: None,
                form: final(self).form,
                ..*old(self)
            }),
            form::same_entries(final(self).form, old(self).form),
            final(self).form.access_key_placeholder@ == source.access_key_label@,
            final(self).form.secret_key_placeholder@ == (match source.secret_key_label {
                Some(label) => label@,
                None => "(Not required, leave empty)"@,
            }),
            final(self).form.region_placeholder@ == (match source.default_region {
                Some(region) => "Region (optional, default "@ + region@ + ")"@,
                None => "(Not required)"@,
            }),
            final(self).form.region@ == (match source.default_region {
                Some(region) => region@,
                None => Seq::empty(),
            }),
    {
        self.form.ask_for(&source);
        self.selected_source = source;
        self.fill_status = None;
    }

    /// Enter credentials that were found, or say where none were, having looked
    /// in `places`.
    pub fn fill(&mut self, found: Option<FoundCredentials>, places: &Vec<String>)
        ensures
            *final(self) == (AccountsView {
                form: final(self).form,
                fill_status: final(self).fill_status,
                ..*old(self)
            }),
            match found {
                Some(found) => {
                    &&& final(self).fill_status == Some(FillStatus::Filled(found.origin))
                    &&& final(self).form == (AccountForm {
                        access_key: found.access_key,
                        secret_key: match found.secret_key {
                            Some(secret_key) => secret_key,
                            None => old(self).form.secret_key,
                        },
                        region: match found.region {
                            Some(region) => region,
                            None => old(self).form.region,
                        },
                        ..old(self).form
                    })
                },
                None => {
                    &&& final(self).form == old(self).form
                    &&& final(self).fill_status is Some
                    &&& final(self).fill_status->0 is NotFound
                    &&& final(self).fill_status->0->NotFound_0@ == text::joined(
                        text::texts(places@),
                        " or "@,
                    )
                },
            },
    {
        match found {
            Some(found) => {
                let origin = found.origin.clone();
                self.form.fill(found);
                self.fill_status = Some(FillStatus::Filled(origin));
            },
            None => {
                self.fill_status = Some(FillStatus::NotFound(text::join(places, " or ")));
            },
        }
    }

    /// Fill the form from this machine.
    pub fn fill_from_system(&mut self)
        ensures
            *final(self) == (AccountsView {
                fill_status: final(self).fill_status,
                ..*old(self)
            }),
            final(self).fill_status is Some,
            final(self).fill_status->0 is NotFound,
            final(self).fill_status->0->NotFound_0@.len() == 0,
    {
        let found = self.selected_source.credentials_from_system();
        let places = self.selected_source.credential_places();
        self.fill(found, &places);
    }

    /// Save the account that the form describes: the draft to store, under an id
    /// of its own, or nothing where a save is in flight or the form is wrong,
    /// which the dialog then says.
    pub fn save_account(&mut self, now: Timestamp) -> (res: Option<AccountDraft>)
        ensures
            old(self).saving ==> res is None && *final(self) == *old(self),
            !old(self).saving ==> match form::form_fault(
                old(self).form,
                old(self).selected_source@,
            ) {
                Some(fault) => {
                    &&& res is None
                    &&& *final(self) == (AccountsView {
                        dialog_error: final(self).dialog_error,
                        ..*old(self)
                    })
                    &&& says(final(self).dialog_error, Some(fault))
                },
                None => {
                    &&& res is Some
                    &&& identity::is_uuid(res->0.account.id@)
                    &&& form::drafts(
                        res->0,
                        old(self).form,
                        old(self).selected_source@,
                        now,
                    )
                    &&& *final(self) == (AccountsView {
                        saving: true,
                        dialog_error: None,
                        ..*old(self)
                    })
                },
            },
    {
        if self.saving {
            return None;
        }
        match form::draft_account(&self.form, &self.selected_source, identity::new_uuid(), now) {
            Ok(draft) => {
                self.saving = true;
                self.dialog_error = None;
                Some(draft)
            },
            Err(fault) => {
                self.dialog_error = Some(fault);
                None
            },
        }
    }

    /// An account was saved, or not. A failure is said in the dialog; otherwise
    /// the dialog closes, loads of the accounts and the table follow, and either
    /// the account's bill is fetched or the success is said.
    pub fn account_saved(&mut self, draft: &AccountDraft, result: Result<(), Error>) -> (res:
        AfterSave)
        requires
            old(self).banners.generation < u64::MAX,
        ensures
            match result {
                Ok(_) => {
                    &&& *final(self) == (AccountsView {
                        saving: false,
                        show_add_dialog: false,
                        loading_data: true,
                        banners: final(self).banners,
                        ..*old(self)
                    })
                    &&& if draft.fetch_after_save {
                        &&& res == AfterSave::Fetch
                        &&& progresses(
                            final(self).banners,
                            old(self).banners,
                            "Added "@ + draft.account.name@ + ". Fetching its bill…"@,
                        )
                    } else {
                        &&& res == AfterSave::Fade(final(self).banners.generation)
                        &&& succeeds(
                            final(self).banners,
                            old(self).banners,
                            form::added_text(
                                draft.account.name@,
                                cloud::label_view(draft.import_hint),
                            ),
                        )
                    }
                },
                Err(e) => {
                    &&& res == AfterSave::Nothing
                    &&& *final(self) == (AccountsView {
                        saving: false,
                        dialog_error: final(self).dialog_error,
                        ..*old(self)
                    })
                    &&& says(
                        final(self).dialog_error,
                        Some("Couldn't save the account: "@ + e.message@),
                    )
                },
            },
    {
        self.saving = false;
        match result {
            Ok(_) => {
                self.show_add_dialog = false;
                self.loading_data = true;
                if draft.fetch_after_save {
                    self.banners.progress(
                        concat3("Added ", &draft.account.name, ". Fetching its bill…"),
                    );
                    AfterSave::Fetch
                } else {
                    AfterSave::Fade(self.banners.succeed(form::added_message(draft)))
                }
            },
            Err(e) => {
                self.dialog_error = Some(concat2("Couldn't save the account: ", &e.message));
                AfterSave::Nothing
            },
        }
    }

    /// The bill of an account that was just added came back. A failure leaves
    /// the account saved; it is said on the page.
    pub fn first_bill_fetched(&mut self, name: &str, result: Result<RefreshOutcome, Error>) -> (res:
        Option<u64>)
        requires
            old(self).banners.generation < u64::MAX,
            result is Ok ==> ingest::charges_of(result->Ok_0.ingested@) <= usize::MAX,
        ensures
            res is Some <==> result is Ok,
            res is Some ==> res->0 == final(self).banners.generation,
            *final(self) == (AccountsView { banners: final(self).banners, ..*old(self) }),
            match result {
                Ok(outcome) => succeeds(
                    final(self).banners,
                    old(self).banners,
                    first_bill_text(name@, outcome),
                ),
                Err(e) => fails(
                    final(self).banners,
                    old(self).banners,
                    "Added "@ + name@ + ", but its bill couldn't be fetched: "@ + e.message@,
                ),
            },
    {
        match result {
            Ok(outcome) => {
                let message = if outcome.ingested.len() == 0 {
                    concat3("Added ", name, ". No bill to fetch yet.")
                } else {
                    let mut message = concat3("Added ", name, " and fetched ");
                    let charges: usize = ingest::total_charges(&outcome.ingested);
                    message.append(&decimal_text(charges as u64));
                    message.append(" charge(s).");
                    message
                };
                Some(self.banners.succeed(message))
            },
            Err(e) => {
                let mut message = concat3("Added ", name, ", but its bill couldn't be fetched: ");
                message.append(&e.message);
                self.banners.fail(message);
                None
            },
        }
    }

    // ==================== Deleting ====================

    /// Ask before deleting.
    pub fn ask_delete_account(&mut self, account_id: String)
        ensures
            *final(self) == (AccountsView { pending_delete: Some(account_id), ..*old(self) }),
    {
        self.pending_delete = Some(account_id);
    }

    pub fn cancel_delete(&mut self)
        ensures
            *final(self) == (AccountsView { pending_delete: None, ..*old(self) }),
    {
        self.pending_delete = None;
    }

    /// Confirm the deletion: the account to delete, if one awaits it and is not
    /// being deleted.
    pub fn confirm_delete(&mut self) -> (res: Option<String>)
        ensures
            *final(self) == (AccountsView {
                pending_delete: None,
                deleting_ids: final(self).deleting_ids,
                ..*old(self)
            }),
            match old(self).pending_delete {
                Some(id) => {
                    &&& id_added(final(self).deleting_ids@, old(self).deleting_ids@, id@)
                    &&& res == (if order::lists(old(self).deleting_ids@, id@) {
                        None
                    } else {
                        Some(id)
                    })
                },
                None => res is None && final(self).deleting_ids == old(self).deleting_ids,
            },
    {
        match self.pending_delete.take() {
            Some(id) => if add_id(&mut self.deleting_ids, &id) {
                Some(id)
            } else {
                None
            },
            None => None,
        }
    }

    /// An account was deleted, or not. Loads of the accounts and the table
    /// follow a success; the generation of its banner's fade.
    pub fn account_deleted(&mut self, account_id: &str, result: Result<(), Error>) -> (res: Option<
        u64,
    >)
        requires
            old(self).banners.generation < u64::MAX,
        ensures
            final(self).deleting_ids@ == list::without(
                old(self).deleting_ids@,
                is_id(account_id@),
            ),
            res is Some <==> result is Ok,
            res is Some ==> res->0 == final(self).banners.generation,
            *final(self) == (AccountsView {
                deleting_ids: final(self).deleting_ids,
                loading_data: old(self).loading_data || result is Ok,
                banners: final(self).banners,
                ..*old(self)
            }),
            match result {
                Ok(_) => {
                    &&& final(self).banners.error == old(self).banners.error
                    &&& says(final(self).banners.success, Some("Account deleted"@))
                    &&& final(self).banners.info is None
                    &&& final(self).banners.generation == old(self).banners.generation + 1
                },
                Err(e) => {
                    &&& says(final(self).banners.error, Some("Delete failed: "@ + e.message@))
                    &&& final(self).banners.success == old(self).banners.success
                    &&& final(self).banners.info is None
                    &&& final(self).banners.generation == old(self).banners.generation
                },
            },
    {
        drop_id(&mut self.deleting_ids, account_id);
        self.banners.info = None;
        match result {
            Ok(_) => {
                self.banners.success = Some("Account deleted".to_owned());
                self.banners.generation = self.banners.generation + 1;
                self.loading_data = true;
                Some(self.banners.generation)
            },
            Err(e) => {
                self.banners.error = Some(concat2("Delete failed: ", &e.message));
                None
            },
        }
    }

    /// The name of the account that awaits the confirmation of its deletion.
    pub open spec fn doomed_name(self) -> Seq<char> {
        match list::first_index(self.accounts@, db::account_id(self.pending_delete->0@)) {
            Some(i) => self.accounts@[i].name@,
            None => "this account"@,
        }
    }

    /// What the dialog that confirms a deletion shows, while one awaits it.
    pub fn delete_dialog(&self) -> (res: Option<DeleteDialog>)
        ensures
            res is Some <==> self.pending_delete is Some,
            res is Some ==> {
                &&& res->0.title@ == "Delete account"@
                &&& res->0.question@ == "Delete \""@ + self.doomed_name()
                    + "\"? The account and its credentials in the OS keyring are removed. This cannot be undone."@
                &&& res->0.confirm_label@ == "Delete"@
                &&& res->0.confirm_disabled == order::lists(
                    self.deleting_ids@,
                    self.pending_delete->0@,
                )
            },
    {
        let id = match &self.pending_delete {
            Some(id) => id,
            None => {
                return None;
            },
        };
        let name = match self.position(id) {
            Some(i) => self.accounts[i].name.clone(),
            None => "this account".to_owned(),
        };
        Some(
            DeleteDialog {
                title: "Delete account",
                question: concat3(
                    "Delete \"",
                    &name,
                    "\"? The account and its credentials in the OS keyring are removed. This cannot be undone.",
                ),
                confirm_label: "Delete",
                confirm_disabled: order::is_listed(&self.deleting_ids, id),
            },
        )
    }

    /// Where an account is in the list of accounts.
    pub fn position(&self, account_id: &str) -> (res: Option<usize>)
        ensures
            match list::first_index(self.accounts@, db::account_id(account_id@)) {
                Some(i) => res is Some && res->0 == i && i < self.accounts@.len(),
                None => res is None,
            },
    {
        proof {
            list::first_index_is_first(self.accounts@, db::account_id(account_id@));
        }
        let accepts = |account: &CloudAccount| -> (b: bool)
            ensures
                b == (account.id@ == account_id@)
        { same_text(&account.id, account_id) };
        list::position(&self.accounts, accepts, Ghost(db::account_id(account_id@)))
    }

    /// An account is in the list.
    pub open spec fn knows(self, account_id: Seq<char>) -> bool {
        list::first_index(self.accounts@, db::account_id(account_id)) is Some
    }

    // ==================== Validating ====================

    /// Validate an account with the credentials that were read for it: the
    /// credentials to use, or nothing where the account's source is not known,
    /// there are none, or a validation of it is in flight.
    pub fn validate_account(
        &mut self,
        account: &CloudAccount,
        context: Result<SourceContext, Error>,
    ) -> (res: Option<SourceContext>)
        requires
            old(self).banners.generation < u64::MAX,
        ensures
            *final(self) == (AccountsView {
                banners: final(self).banners,
                validating_ids: final(self).validating_ids,
                ..*old(self)
            }),
            if cloud::source_of(account.source_id.id@) is None {
                &&& res is None
                &&& final(self).validating_ids == old(self).validating_ids
                &&& fails(
                    final(self).banners,
                    old(self).banners,
                    unknown_source(account.name@),
                )
            } else {
                match context {
                    Ok(context) => {
                        &&& id_added(
                            final(self).validating_ids@,
                            old(self).validating_ids@,
                            account.id@,
                        )
                        &&& if order::lists(old(self).validating_ids@, account.id@) {
                            res is None && final(self).banners == old(self).banners
                        } else {
                            &&& res == Some(context)
                            &&& progresses(
                                final(self).banners,
                                old(self).banners,
                                "Validating account "@ + account.name@ + "..."@,
                            )
                        }
                    },
                    Err(e) => {
                        &&& res is None
                        &&& final(self).validating_ids == old(self).validating_ids
                        &&& fails(
                            final(self).banners,
                            old(self).banners,
                            "Cannot validate "@ + account.name@ + ": "@ + e.message@,
                        )
                    },
                }
            },
    {
        if account.descriptor().is_none() {
            self.banners.fail(
                concat3("Account ", &account.name, " uses an unknown billing source"),
            );
            return None;
        }
        let context = match context {
            Ok(context) => context,
            Err(e) => {
                let mut message = concat3("Cannot validate ", &account.name, ": ");
                message.append(&e.message);
                self.banners.fail(message);
                return None;
            },
        };
        if !add_id(&mut self.validating_ids, &account.id) {
            return None;
        }
        self.banners.progress(concat3("Validating account ", &account.name, "..."));
        Some(context)
    }

    /// A validation came back. An account that was deleted meanwhile has no row
    /// to report against.
    pub fn account_validated(
        &mut self,
        account_id: &str,
        name: &str,
        result: Result<bool, Error>,
    ) -> (res: Option<u64>)
        requires
            old(self).banners.generation < u64::MAX,
        ensures
            *final(self) == (AccountsView {
                banners: final(self).banners,
                validating_ids: final(self).validating_ids,
                ..*old(self)
            }),
            final(self).validating_ids@ == list::without(
                old(self).validating_ids@,
                is_id(account_id@),
            ),
            res is Some <==> old(self).knows(account_id@) && result == Ok::<bool, Error>(true),
            res is Some ==> res->0 == final(self).banners.generation,
            if old(self).knows(account_id@) {
                match result {
                    Ok(true) => succeeds(
                        final(self).banners,
                        old(self).banners,
                        "Account "@ + name@ + " validated successfully!"@,
                    ),
                    Ok(false) => fails(
                        final(self).banners,
                        old(self).banners,
                        "Account "@ + name@ + " credentials invalid"@,
                    ),
                    Err(e) => fails(
                        final(self).banners,
                        old(self).banners,
                        "Validation failed: "@ + e.message@,
                    ),
                }
            } else {
                final(self).banners == old(self).banners
            },
    {
        drop_id(&mut self.validating_ids, account_id);
        if self.position(account_id).is_none() {
            return None;
        }
        match result {
            Ok(true) => Some(
                self.banners.succeed(concat3("Account ", name, " validated successfully!")),
            ),
            Ok(false) => {
                self.banners.fail(concat3("Account ", name, " credentials invalid"));
                None
            },
            Err(e) => {
                self.banners.fail(concat2("Validation failed: ", &e.message));
                None
            },
        }
    }

    // ==================== Importing ====================

    /// Import a bill export into an account; whether the file picker opens.
    pub fn import_bill_file(&mut self, account: &CloudAccount) -> (res: bool)
        requires
            old(self).banners.generation < u64::MAX,
        ensures
            *final(self) == (AccountsView {
                banners: final(self).banners,
                importing_ids: final(self).importing_ids,
                ..*old(self)
            }),
            match cloud::source_of(account.source_id.id@) {
                None => {
                    &&& !res
                    &&& final(self).importing_ids == old(self).importing_ids
                    &&& fails(
                        final(self).banners,
                        old(self).banners,
                        unknown_source(account.name@),
                    )
                },
                Some(source) => match source.bill_file {
                    None => {
                        &&& !res
                        &&& final(self).importing_ids == old(self).importing_ids
                        &&& fails(
                            final(self).banners,
                            old(self).banners,
                            source.display_name
                                + " publishes no bill export CloudBridge can read"@,
                        )
                    },
                    Some(format) => {
                        &&& res == !order::lists(old(self).importing_ids@, account.id@)
                        &&& id_added(
                            final(self).importing_ids@,
                            old(self).importing_ids@,
                            account.id@,
                        )
                        &&& !res ==> final(self).banners == old(self).banners
                        &&& res ==> progresses(
                            final(self).banners,
                            old(self).banners,
                            "Choose the "@ + format.display_name + " to import ("@ + text::joined(
                                format.extensions.map_values(|e: Seq<char>| "."@ + e),
                                " or "@,
                            ) + ")"@,
                        )
                    },
                },
            },
    {
        let descriptor = match account.descriptor() {
            Some(descriptor) => descriptor,
            None => {
                self.banners.fail(
                    concat3("Account ", &account.name, " uses an unknown billing source"),
                );
                return false;
            },
        };
        let format = match &descriptor.bill_file {
            Some(format) => format,
            None => {
                self.banners.fail(
                    concat2(
                        descriptor.display_name,
                        " publishes no bill export CloudBridge can read",
                    ),
                );
                return false;
            },
        };
        if !add_id(&mut self.importing_ids, &account.id) {
            return false;
        }
        proof {
            assert(cloud::dotted(format.extensions@) =~= format@.extensions.map_values(
                |e: Seq<char>| "."@ + e,
            ));
        }
        let mut message = concat3("Choose the ", format.display_name, " to import (");
        message.append(&format.extension_hint());
        message.append(")");
        self.banners.progress(message);
        true
    }

    /// An import came back: what to say of it, nothing where it was cancelled,
    /// or why it failed. An account that was deleted meanwhile has no row to
    /// report against.
    pub fn imported(&mut self, account_id: &str, outcome: Result<String, String>) -> (res: Option<
        u64,
    >)
        requires
            old(self).banners.generation < u64::MAX,
        ensures
            final(self).importing_ids@ == list::without(
                old(self).importing_ids@,
                is_id(account_id@),
            ),
            if old(self).knows(account_id@) {
                final(self).reports(
                    (AccountsView {
                        importing_ids: final(self).importing_ids,
                        ..*old(self)
                    }),
                    outcome,
                    res,
                )
            } else {
                &&& res is None
                &&& *final(self) == (AccountsView {
                    importing_ids: final(self).importing_ids,
                    ..*old(self)
                })
            },
    {
        drop_id(&mut self.importing_ids, account_id);
        if self.position(account_id).is_none() {
            return None;
        }
        self.report(outcome)
    }

    /// The outcome of an action is on the page. Loads of the accounts and the
    /// table follow a success; a cancellation clears what is said and claims
    /// nothing.
    pub open spec fn reports(
        self,
        before: AccountsView,
        outcome: Result<String, String>,
        fade: Option<u64>,
    ) -> bool {
        let done = outcome is Ok && outcome->Ok_0@.len() > 0;
        &&& fade is Some <==> done
        &&& fade is Some ==> fade->0 == self.banners.generation
        &&& self == (AccountsView {
            banners: self.banners,
            loading_data: before.loading_data || done,
            ..before
        })
        &&& match outcome {
            Ok(message) => if message@.len() == 0 {
                self.banners == (Banners {
                    error: None,
                    success: None,
                    info: None,
                    ..before.banners
                })
            } else {
                succeeds(self.banners, before.banners, message@)
            },
            Err(message) => fails(self.banners, before.banners, message@),
        }
    }

    /// Put the outcome of an action on the page; the generation of its banner's
    /// fade.
    pub fn report(&mut self, outcome: Result<String, String>) -> (res: Option<u64>)
        requires
            old(self).banners.generation < u64::MAX,
        ensures
            final(self).reports(*old(self), outcome, res),
    {
        match outcome {
            Ok(message) => {
                if text::is_empty_text(&message) {
                    self.banners.error = None;
                    self.banners.success = None;
                    self.banners.info = None;
                    return None;
                }
                self.loading_data = true;
                Some(self.banners.succeed(message))
            },
            Err(message) => {
                self.banners.fail(message);
                None
            },
        }
    }
}

/// What the dialog that confirms a deletion shows.
#[derive(Debug)]
pub struct DeleteDialog {
    pub title: &'static str,
    pub question: String,
    pub confirm_label: &'static str,
    pub confirm_disabled: bool,
}

} // verus!
