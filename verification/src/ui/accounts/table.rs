//! What the accounts page shows: its header, the table, the cards under it and
//! the dialog that adds an account.
use vstd::prelude::*;

use super::form;
use super::form::{setup_hint, SetupHint};
use super::AccountsView;
use crate::amount::Amount;
use crate::calendar::Timestamp;
use crate::cloud;
use crate::cloud::SourceDescriptor;
use crate::db;
use crate::list;
use crate::order;
use crate::text;
use crate::text::{concat2, concat3, decimal_text, same_text, signed_text};
use crate::ui::data::accounts::{AccountRowData, AccountState, API_CALL_CEILING};
use crate::ui::fmt;

verus! {

// ==================== Sizes ====================

/// A whole number as a double holds it: the nearest multiple of `unit`, the
/// even one of two, where `unit` is the least power of two that leaves no more
/// than fifty-three binary digits.
pub open spec fn as_double(n: nat, unit: nat) -> nat
    decreases
            if n >= 0x20_0000_0000_0000 * unit && unit > 0 {
                n - unit
            } else {
                0
            },
{
    if n >= 0x20_0000_0000_0000 * unit && unit > 0 {
        as_double(n, 2 * unit)
    } else {
        fmt::half_even(n, unit) * unit
    }
}

fn divide_half_even(n: u128, d: u128) -> (res: u128)
    requires
        d > 0,
        d <= 0x1_0000_0000_0000_0000,
    ensures
        res == fmt::half_even(n as nat, d as nat),
        res <= n / d + 1,
{
    let q: u128 = n / d;
    let r: u128 = n % d;
    proof {
        assert(q * d <= n) by (nonlinear_arith)
            requires
                q == n / d,
                d > 0,
        ;
        assert(q <= n) by (nonlinear_arith)
            requires
                q * d <= n,
                d > 0,
                q >= 0,
        ;
    }
    if 2 * r > d || (2 * r == d && q % 2 == 1) {
        proof {
            assert(d >= 2);
            assert(q + 1 <= u128::MAX) by (nonlinear_arith)
                requires
                    q * d <= n,
                    d >= 2,
                    n <= u128::MAX,
            ;
        }
        q + 1
    } else {
        q
    }
}

/// A whole number of bytes as a double holds it.
fn double_of(n: u64) -> (res: u128)
    ensures
        res == as_double(n as nat, 1),
        res <= 0x1_0000_0000_0000_0000 + 0x1_0000_0000_0000_0000,
{
    let mut unit: u128 = 1;
    while n as u128 >= 0x20_0000_0000_0000 * unit
        invariant
            1 <= unit <= 0x1000,
            as_double(n as nat, 1) == as_double(n as nat, unit as nat),
        decreases 0x2000 - unit,
    {
        proof {
            assert(unit <= 0x7FF);
        }
        unit = 2 * unit;
    }
    let m: u128 = divide_half_even(n as u128, unit);
    proof {
        assert(m * unit <= 0x1_0000_0000_0000_0000 + 0x1_0000_0000_0000_0000) by (nonlinear_arith)
            requires
                m <= n as u128 / unit + 1,
                1 <= unit <= 0x1000,
                n <= 0xFFFF_FFFF_FFFF_FFFF,
        ;
    }
    m * unit
}

/// A size in the largest unit of which it has at least one. Gigabytes and
/// megabytes keep one decimal.
pub open spec fn bytes_text(bytes: nat) -> Seq<char> {
    if bytes >= 0x4000_0000 {
        fmt::one_place(fmt::half_even(as_double(bytes, 1) * 10, 0x4000_0000)) + " GB"@
    } else if bytes >= 0x10_0000 {
        fmt::one_place(fmt::half_even(as_double(bytes, 1) * 10, 0x10_0000)) + " MB"@
    } else if bytes >= 1024 {
        text::decimal(bytes / 1024) + " KB"@
    } else {
        text::decimal(bytes) + " B"@
    }
}

fn tenths_of(bytes: u64, unit: u128) -> (res: String)
    requires
        0x10_0000 <= unit <= 0x4000_0000,
    ensures
        res@ == fmt::one_place(fmt::half_even(as_double(bytes as nat, 1) * 10, unit as nat)),
{
    let size: u128 = double_of(bytes);
    let tenths: u128 = divide_half_even(size * 10, unit);
    proof {
        assert(tenths <= u64::MAX) by (nonlinear_arith)
            requires
                tenths <= (size * 10) / (unit as int) + 1,
                size <= 0x2_0000_0000_0000_0000,
                unit >= 0x10_0000,
        ;
    }
    let tenths: u64 = tenths as u64;
    let mut out = decimal_text(tenths / 10);
    out.append(".");
    out.append(text::digit_text((tenths % 10) as u8));
    proof {
        assert(out@ =~= fmt::one_place(tenths as nat));
    }
    out
}

/// A size in bytes, as gigabytes, megabytes, kilobytes or bytes.
pub fn format_bytes(bytes: u64) -> (res: String)
    ensures
        res@ == bytes_text(bytes as nat),
{
    if bytes >= 0x4000_0000 {
        concat2(&tenths_of(bytes, 0x4000_0000), " GB")
    } else if bytes >= 0x10_0000 {
        concat2(&tenths_of(bytes, 0x10_0000), " MB")
    } else if bytes >= 1024 {
        concat2(&decimal_text(bytes / 1024), " KB")
    } else {
        concat2(&decimal_text(bytes), " B")
    }
}

/// A prepaid balance in its own currency, such as `¥8.14 left`.
pub fn format_balance(amount: Amount, currency: &str) -> (res: String)
    ensures
        res@ == fmt::amount_text(amount, currency@) + " left"@,
{
    concat2(&fmt::amount(amount, currency), " left")
}

// ==================== The table ====================

/// What the table shows under its headings.
#[derive(Clone, Copy, PartialEq, Eq, Structural, Debug)]
pub enum TableBody {
    Loading,
    Empty,
    Rows,
}

impl TableBody {
    /// What is said where there are no rows.
    pub fn caption(self) -> (res: Option<&'static str>)
        ensures
            cloud::label_view(res) == (match self {
                TableBody::Loading => Some("Loading accounts…"@),
                TableBody::Empty => Some(
                    "No accounts yet. Add one to connect a billing source."@,
                ),
                TableBody::Rows => None,
            }),
    {
        match self {
            TableBody::Loading => Some("Loading accounts…"),
            TableBody::Empty => Some("No accounts yet. Add one to connect a billing source."),
            TableBody::Rows => None,
        }
    }
}

/// One row of the table.
#[derive(Debug)]
pub struct AccountCells {
    pub id: String,
    pub name: String,
    /// The account is one of the demo's.
    pub demo: bool,
    /// The masked access key, where one is known.
    pub masked_key: Option<String>,
    pub provider: String,
    pub source_kind: String,
    /// The month's cost so far, or the balance.
    pub amount: String,
    pub last_fetch: String,
    pub state: AccountState,
    /// The account can be validated; whether that waits for one in flight.
    pub validate_disabled: Option<bool>,
    /// A bill can be imported; whether that waits for one in flight.
    pub import_disabled: Option<bool>,
    pub delete_disabled: bool,
}

/// The amount of a row: its balance where it reports one, else its cost.
pub open spec fn row_amount(row: AccountRowData, currency: Seq<char>) -> Seq<char> {
    if row.source_kind@ == "Balance only"@ {
        match row.balance {
            Some((amount, own)) => fmt::amount_text(amount, own@) + " left"@,
            None => "—"@,
        }
    } else {
        fmt::amount_text(row.mtd, currency)
    }
}

impl AccountsView {
    /// The source of the stored account behind a row.
    pub open spec fn source_behind(self, id: Seq<char>) -> Option<cloud::SourceFacts> {
        match list::first_index(self.accounts@, db::account_id(id)) {
            Some(i) => cloud::source_of(self.accounts@[i].source_id.id@),
            None => None,
        }
    }

    /// How many accounts there are, and where their credentials are kept.
    pub fn header_caption(&self) -> (res: String)
        ensures
            res@ == text::decimal(self.accounts@.len())
                + " accounts · credentials in the OS keyring, never in the database"@,
    {
        concat2(
            &decimal_text(self.accounts.len() as u64),
            " accounts · credentials in the OS keyring, never in the database",
        )
    }

    /// What the table shows under its headings.
    pub fn table_body(&self) -> (res: TableBody)
        ensures
            res == (match self.accounts_data {
                None => TableBody::Loading,
                Some(loaded) => if loaded.accounts@.len() == 0 {
                    TableBody::Empty
                } else {
                    TableBody::Rows
                },
            }),
    {
        match &self.accounts_data {
            None => TableBody::Loading,
            Some(loaded) => if loaded.accounts.len() == 0 {
                TableBody::Empty
            } else {
                TableBody::Rows
            },
        }
    }

    /// One row of the table. `masked` is the masked access key of the stored
    /// account; the ids of the demo's accounts begin with `demo_prefix`. The
    /// actions need the stored account the row came from.
    pub fn table_row(
        &self,
        row: &AccountRowData,
        currency: &str,
        masked: Option<&str>,
        demo_prefix: &str,
        now: Timestamp,
    ) -> (res: AccountCells)
        requires
            now.valid(),
            row.last_sync is Some ==> row.last_sync->0.valid(),
        ensures
            res.id@ == row.id@,
            res.name@ == row.name@,
            res.demo == text::begins_with(row.id@, demo_prefix@),
            order::part_view(res.masked_key) == (match masked {
                Some(masked) => if self.knows(row.id@) {
                    Some("AK: "@ + masked@)
                } else {
                    None
                },
                None => None,
            }),
            res.provider@ == row.provider@,
            res.source_kind@ == row.source_kind@,
            res.amount@ == row_amount(*row, currency@),
            res.last_fetch@ == (match row.last_sync {
                Some(at) => fmt::age_text(at, now),
                None => "never"@,
            }),
            res.state == row.state,
            res.validate_disabled == (match self.source_behind(row.id@) {
                Some(source) => if source.fetches_from_api {
                    Some(order::lists(self.validating_ids@, row.id@))
                } else {
                    None
                },
                None => None,
            }),
            res.import_disabled == (match self.source_behind(row.id@) {
                Some(source) => if source.bill_file is Some {
                    Some(order::lists(self.importing_ids@, row.id@))
                } else {
                    None
                },
                None => None,
            }),
            res.delete_disabled == order::lists(self.deleting_ids@, row.id@),
    {
        let at = self.position(&row.id);
        let source = match at {
            Some(i) => self.accounts[i].descriptor(),
            None => None,
        };
        let (fetches, imports) = match &source {
            Some(source) => (source.fetches_from_api(), source.imports_bill_file()),
            None => (false, false),
        };
        let amount = if same_text(&row.source_kind, "Balance only") {
            match &row.balance {
                Some(balance) => format_balance(balance.0, &balance.1),
                None => "—".to_owned(),
            }
        } else {
            fmt::amount(row.mtd, currency)
        };
        let last_fetch = match row.last_sync {
            Some(at) => fmt::relative_time(at, now),
            None => "never".to_owned(),
        };
        let masked_key = match masked {
            Some(masked) => if at.is_some() {
                Some(concat2("AK: ", masked))
            } else {
                None
            },
            None => None,
        };
        let validate_disabled = if fetches {
            Some(order::is_listed(&self.validating_ids, &row.id))
        } else {
            None
        };
        let import_disabled = if imports {
            Some(order::is_listed(&self.importing_ids, &row.id))
        } else {
            None
        };
        AccountCells {
            id: row.id.clone(),
            name: row.name.clone(),
            demo: text::starts_with(&row.id, demo_prefix),
            masked_key,
            provider: row.provider.clone(),
            source_kind: row.source_kind.clone(),
            amount,
            last_fetch,
            state: row.state,
            validate_disabled,
            import_disabled,
            delete_disabled: order::is_listed(&self.deleting_ids, &row.id),
        }
    }

    // ==================== The cards ====================

    /// The two cards under the table.
    pub fn bottom_cards(&self) -> (res: BottomCards)
        ensures
            match self.accounts_data {
                Some(loaded) => {
                    &&& res.used == loaded.budget.used
                    &&& res.ceiling == loaded.budget.ceiling
                    &&& res.budget_body@ == budget_text(loaded.budget.spent)
                    &&& res.raw_body@ == bytes_text(loaded.raw.bytes as nat)
                        + " of Parquet under "@ + loaded.raw.path@
                        + ". A mapping fix replays these instead of paying for another fetch."@
                },
                None => {
                    &&& res.used == 0
                    &&& res.ceiling == 100
                    &&& res.budget_body@ == budget_text(Amount { bits: 0 })
                    &&& res.raw_body@ == "Reading the raw store…"@
                },
            },
            res.budget_title@ == "Paid API budget"@,
            res.budget_caption@ == text::signed_decimal(res.used as int) + " of a "@
                + text::decimal(res.ceiling as nat) + "-call monthly ceiling"@,
            res.raw_title@ == "Raw payloads on disk"@,
            res.replay_label@ == "Replay normalization"@,
    {
        let (used, ceiling, spent) = match &self.accounts_data {
            Some(loaded) => (loaded.budget.used, loaded.budget.ceiling, loaded.budget.spent),
            None => (0, API_CALL_CEILING, Amount::zero()),
        };
        let budget_body = concat3(
            "CloudBridge has spent ",
            &fmt::amount(spent, "USD"),
            " on paid API fetches this month, one call per stale period.",
        );
        let mut budget_caption = concat2(&signed_text(used), " of a ");
        budget_caption.append(&decimal_text(ceiling as u64));
        budget_caption.append("-call monthly ceiling");
        let raw_body = match &self.accounts_data {
            Some(loaded) => {
                let mut body = concat2(&format_bytes(loaded.raw.bytes), " of Parquet under ");
                body.append(&loaded.raw.path);
                body.append(
                    ". A mapping fix replays these instead of paying for another fetch.",
                );
                body
            },
            None => "Reading the raw store…".to_owned(),
        };
        BottomCards {
            budget_title: "Paid API budget",
            budget_body,
            used,
            ceiling,
            budget_caption,
            raw_title: "Raw payloads on disk",
            raw_body,
            replay_label: "Replay normalization",
        }
    }

    // ==================== The dialog ====================

    /// The sources to choose from, in the order they are registered.
    pub fn source_choices(&self) -> (res: Vec<SourceChoice>)
        ensures
            res@.len() == cloud::sources().len(),
            forall|i: int|
                0 <= i < res@.len() ==> is_choice(
                    #[trigger] res@[i],
                    cloud::sources()[i],
                    self.selected_source@,
                ),
    {
        let all = cloud::all();
        let ghost facts = all@.map_values(|d: SourceDescriptor| d@);
        let mut choices: Vec<SourceChoice> = Vec::new();
        let mut i: usize = 0;
        while i < all.len()
            invariant
                i <= all.len(),
                facts == all@.map_values(|d: SourceDescriptor| d@),
                facts == cloud::sources(),
                choices@.len() == i,
                forall|k: int|
                    0 <= k < i ==> is_choice(
                        #[trigger] choices@[k],
                        facts[k],
                        self.selected_source@,
                    ),
            decreases all.len() - i,
        {
            let source = &all[i];
            let tooltip = if source.fetches_from_api() {
                None
            } else {
                Some("Read from a bill file you import")
            };
            proof {
                assert(facts[i as int] == source@);
            }
            choices.push(
                SourceChoice {
                    id: source.id,
                    label: source.short_name,
                    tooltip,
                    selected: same_text(source.id, self.selected_source.id),
                },
            );
            i = i + 1;
        }
        choices
    }

    /// What the dialog that adds an account shows, while it is open.
    pub fn add_dialog(&self) -> (res: Option<AddDialog>)
        ensures
            res is Some <==> self.show_add_dialog,
            res is Some ==> {
                let dialog = res->0;
                let source = self.selected_source@;
                &&& dialog.title@ == "Add Cloud Account"@
                &&& dialog.source_label@ == "Cloud Provider"@
                &&& dialog.choices@.len() == cloud::sources().len()
                &&& forall|i: int|
                    0 <= i < dialog.choices@.len() ==> is_choice(
                        #[trigger] dialog.choices@[i],
                        cloud::sources()[i],
                        source,
                    )
                &&& match form::hint_of(source.id) {
                    Some((text, anchor)) => dialog.hint is Some && dialog.hint->0.text@ == text
                        && dialog.hint->0.anchor@ == anchor,
                    None => dialog.hint is None,
                }
                &&& dialog.fields@.map_values(|f: DialogField| f.shown()) == fields_of(source)
                &&& order::part_view(dialog.import_note) == import_note_of(source)
                &&& dialog.fill is Some <==> self.selected_source.local_credentials is Some
                &&& dialog.fill is Some ==> {
                    &&& dialog.fill->0.label@ == "Fill from system"@
                    &&& dialog.fill->0.tooltip@
                        == "Read the credentials this machine already has, from the environment or the provider's credentials file"@
                    &&& order::part_view(dialog.fill->0.status) == (match self.fill_status {
                        Some(status) => Some(status.shown()),
                        None => None,
                    })
                }
                &&& order::part_view(dialog.error) == order::part_view(self.dialog_error)
                &&& dialog.save_label@ == "Save"@
                &&& dialog.save_disabled == self.saving
            },
    {
        if !self.show_add_dialog {
            return None;
        }
        let source = &self.selected_source;
        let fill = if source.local_credentials.is_some() {
            let status = match &self.fill_status {
                Some(status) => Some(status.caption()),
                None => None,
            };
            Some(
                FillOffer {
                    label: "Fill from system",
                    tooltip: "Read the credentials this machine already has, from the environment or the provider's credentials file",
                    status,
                },
            )
        } else {
            None
        };
        Some(
            AddDialog {
                title: "Add Cloud Account",
                source_label: "Cloud Provider",
                choices: self.source_choices(),
                hint: setup_hint(source.id),
                fields: dialog_fields(source),
                import_note: import_note(source),
                fill,
                error: order::clone_text(&self.dialog_error),
                save_label: "Save",
                save_disabled: self.saving,
            },
        )
    }
}

/// What paid fetches cost this month.
pub open spec fn budget_text(spent: Amount) -> Seq<char> {
    "CloudBridge has spent "@ + fmt::amount_text(spent, "USD"@)
        + " on paid API fetches this month, one call per stale period."@
}

/// The cards of paid fetches and of stored raw payloads.
#[derive(Debug)]
pub struct BottomCards {
    pub budget_title: &'static str,
    pub budget_body: String,
    /// Calls used this month, out of a ceiling.
    pub used: i64,
    pub ceiling: u32,
    pub budget_caption: String,
    pub raw_title: &'static str,
    pub raw_body: String,
    pub replay_label: &'static str,
}

/// A source to choose in the dialog.
#[derive(Clone, Copy, Debug)]
pub struct SourceChoice {
    pub id: &'static str,
    pub label: &'static str,
    pub tooltip: Option<&'static str>,
    pub selected: bool,
}

pub open spec fn is_choice(
    choice: SourceChoice,
    source: cloud::SourceFacts,
    selected: cloud::SourceFacts,
) -> bool {
    &&& choice.id@ == source.id
    &&& choice.label@ == source.short_name
    &&& choice.selected == (source.id == selected.id)
    &&& cloud::label_view(choice.tooltip) == (if source.fetches_from_api {
        None
    } else {
        Some("Read from a bill file you import"@)
    })
}

/// A field of the form.
#[derive(Clone, Copy, PartialEq, Eq, Structural, Debug)]
pub enum FormInput {
    Name,
    AccessKey,
    SecretKey,
    Region,
    ExportUri,
}

/// A field as the dialog shows it.
#[derive(Clone, Copy, Debug)]
pub struct DialogField {
    pub input: FormInput,
    pub label: &'static str,
    /// What is said under the field.
    pub note: Option<&'static str>,
}

impl DialogField {
    pub open spec fn shown(self) -> (FormInput, Seq<char>, Option<Seq<char>>) {
        (self.input, self.label@, cloud::label_view(self.note))
    }
}

/// The fields that the dialog asks for. A source without a billing API has
/// nothing to sign, so its form asks for no secret.
pub open spec fn fields_of(source: cloud::SourceFacts) -> Seq<
    (FormInput, Seq<char>, Option<Seq<char>>),
> {
    let name = seq![(FormInput::Name, "Account Name"@, None::<Seq<char>>)];
    if !source.fetches_from_api {
        name
    } else {
        name + seq![(FormInput::AccessKey, source.access_key_label, None::<Seq<char>>)] + (
        match source.secret_key_label {
            Some(label) => seq![(FormInput::SecretKey, label, None::<Seq<char>>)],
            None => Seq::empty(),
        }) + (match source.default_region {
            Some(_) => seq![(FormInput::Region, "Region"@, None::<Seq<char>>)],
            None => Seq::empty(),
        }) + (if source.id == "AWS"@ {
            seq![
                (
                    FormInput::ExportUri,
                    "Data export S3 URI"@,
                    Some(
                        "Optional. A FOCUS 1.2 export from Billing and Cost Management → Data Exports. When set, the bill is read from S3 and Cost Explorer is not called."@,
                    ),
                ),
            ]
        } else {
            Seq::empty()
        })
    }
}

/// The fields that the dialog asks for.
pub fn dialog_fields(source: &SourceDescriptor) -> (res: Vec<DialogField>)
    ensures
        res@.map_values(|f: DialogField| f.shown()) == fields_of(source@),
{
    let mut fields: Vec<DialogField> = Vec::new();
    fields.push(DialogField { input: FormInput::Name, label: "Account Name", note: None });
    if source.fetches_from_api() {
        fields.push(
            DialogField { input: FormInput::AccessKey, label: source.access_key_label, note: None },
        );
        if let Some(label) = source.secret_key_label {
            fields.push(DialogField { input: FormInput::SecretKey, label, note: None });
        }
        if source.default_region.is_some() {
            fields.push(DialogField { input: FormInput::Region, label: "Region", note: None });
        }
        if same_text(source.id, "AWS") {
            fields.push(
                DialogField {
                    input: FormInput::ExportUri,
                    label: "Data export S3 URI",
                    note: Some(
                        "Optional. A FOCUS 1.2 export from Billing and Cost Management → Data Exports. When set, the bill is read from S3 and Cost Explorer is not called.",
                    ),
                },
            );
        }
    }
    proof {
        assert(fields@.map_values(|f: DialogField| f.shown()) =~= fields_of(source@));
    }
    fields
}

/// What is said of a source that is read from a bill file alone.
pub open spec fn import_note_of(source: cloud::SourceFacts) -> Option<Seq<char>> {
    match source.bill_file {
        Some(format) => if source.fetches_from_api {
            None
        } else {
            Some(
                "No credentials needed: this source is read from its "@ + format.display_name
                    + ". Save the account, then use Import. ("@ + format.origin_hint + ")"@,
            )
        },
        None => None,
    }
}

/// What is said of a source that is read from a bill file alone.
pub fn import_note(source: &SourceDescriptor) -> (res: Option<String>)
    ensures
        order::part_view(res) == import_note_of(source@),
{
    if source.fetches_from_api() {
        return None;
    }
    match &source.bill_file {
        Some(format) => {
            let mut note = concat3(
                "No credentials needed: this source is read from its ",
                format.display_name,
                ". Save the account, then use Import. (",
            );
            note.append(format.origin_hint);
            note.append(")");
            Some(note)
        },
        None => None,
    }
}

/// The offer to fill the form from this machine.
#[derive(Debug)]
pub struct FillOffer {
    pub label: &'static str,
    pub tooltip: &'static str,
    /// What the last attempt came to.
    pub status: Option<String>,
}

/// What the dialog that adds an account shows.
#[derive(Debug)]
pub struct AddDialog {
    pub title: &'static str,
    pub source_label: &'static str,
    pub choices: Vec<SourceChoice>,
    pub hint: Option<SetupHint>,
    pub fields: Vec<DialogField>,
    pub import_note: Option<String>,
    pub fill: Option<FillOffer>,
    pub error: Option<String>,
    pub save_label: &'static str,
    pub save_disabled: bool,
}

} // verus!
