//! The form of the dialog that adds an account: its fields, what is wrong with
//! them, and the account they describe.
use vstd::prelude::*;

use crate::calendar::Timestamp;
use crate::cloud;
use crate::cloud::{FoundCredentials, SourceDescriptor};
use crate::model::CloudAccount;
use crate::order;
use crate::text;
use crate::text::{concat2, concat3, is_empty_text, same_text};

verus! {

/// The page that lists what each provider's credential must be allowed to do.
pub const POLICIES_URL: &'static str = "https://cloudbridge.jetsquirrel.cloud/policies.html";

// ==================== Setup hints ====================

/// What a source's credential is and must be allowed to do.
#[derive(Clone, Copy, Debug)]
pub struct SetupHint {
    pub text: &'static str,
    /// The section of the permissions page.
    pub anchor: &'static str,
}

/// What is said of a source's credential, and the section about it. Sources
/// that are read from a bill file have none.
pub open spec fn hint_of(source_id: Seq<char>) -> Option<(Seq<char>, Seq<char>)> {
    if source_id == "AWS"@ {
        Some(
            (
                "An IAM user's access key with a policy allowing ce:GetCostAndUsage. Cost Explorer charges $0.01 per request."@,
                "aws-cost-explorer"@,
            ),
        )
    } else if source_id == "Aliyun"@ {
        Some(
            (
                "A RAM user's AccessKey with AliyunBSSReadOnlyAccess. Don't use the primary account's key."@,
                "alibaba-cloud"@,
            ),
        )
    } else if source_id == "DeepSeek"@ {
        Some(
            (
                "A platform key reads the balance only; import the cost export for spend detail. The key can also spend, so keep it private."@,
                "deepseek"@,
            ),
        )
    } else {
        None
    }
}

/// What a source's credential is and must be allowed to do, for the sources
/// that have one.
pub fn setup_hint(source_id: &str) -> (res: Option<SetupHint>)
    ensures
        match hint_of(source_id@) {
            Some((text, anchor)) => res is Some && res->0.text@ == text && res->0.anchor@ == anchor,
            None => res is None,
        },
{
    if same_text(source_id, "AWS") {
        Some(
            SetupHint {
                text: "An IAM user's access key with a policy allowing ce:GetCostAndUsage. Cost Explorer charges $0.01 per request.",
                anchor: "aws-cost-explorer",
            },
        )
    } else if same_text(source_id, "Aliyun") {
        Some(
            SetupHint {
                text: "A RAM user's AccessKey with AliyunBSSReadOnlyAccess. Don't use the primary account's key.",
                anchor: "alibaba-cloud",
            },
        )
    } else if same_text(source_id, "DeepSeek") {
        Some(
            SetupHint {
                text: "A platform key reads the balance only; import the cost export for spend detail. The key can also spend, so keep it private.",
                anchor: "deepseek",
            },
        )
    } else {
        None
    }
}

impl SetupHint {
    /// Where the setup guide is.
    pub fn guide_url(&self) -> (res: String)
        ensures
            res@ == POLICIES_URL@ + "#"@ + self.anchor@,
    {
        concat3(POLICIES_URL, "#", self.anchor)
    }
}

// ==================== Fields ====================

/// The fields of the form, as the user left them.
#[derive(Debug)]
pub struct AccountForm {
    pub name: String,
    pub access_key: String,
    pub secret_key: String,
    pub region: String,
    pub export_uri: String,
    /// What the empty fields of the credential say.
    pub access_key_placeholder: &'static str,
    pub secret_key_placeholder: &'static str,
    pub region_placeholder: String,
}

/// The fields of the form but the region are as in another.
pub open spec fn same_entries(form: AccountForm, other: AccountForm) -> bool {
    &&& form.name == other.name
    &&& form.access_key == other.access_key
    &&& form.secret_key == other.secret_key
    &&& form.export_uri == other.export_uri
}

impl AccountForm {
    /// An empty form, its region the default one.
    pub fn new() -> (res: AccountForm)
        ensures
            res.name@.len() == 0,
            res.access_key@.len() == 0,
            res.secret_key@.len() == 0,
            res.region@ == "us-east-1"@,
            res.export_uri@.len() == 0,
            res.access_key_placeholder@ == "Access Key ID"@,
            res.secret_key_placeholder@ == "Secret Access Key"@,
            res.region_placeholder@ == "Region (optional, default us-east-1)"@,
    {
        AccountForm {
            name: String::new(),
            access_key: String::new(),
            secret_key: String::new(),
            region: "us-east-1".to_owned(),
            export_uri: String::new(),
            access_key_placeholder: "Access Key ID",
            secret_key_placeholder: "Secret Access Key",
            region_placeholder: "Region (optional, default us-east-1)".to_owned(),
        }
    }

    /// Ask for the credential of a source. The region becomes its default, or
    /// empty; what was entered elsewhere stays.
    pub fn ask_for(&mut self, source: &SourceDescriptor)
        ensures
            same_entries(*final(self), *old(self)),
            final(self).access_key_placeholder@ == source.access_key_label@,
            final(self).secret_key_placeholder@ == (match source.secret_key_label {
                Some(label) => label@,
                None => "(Not required, leave empty)"@,
            }),
            final(self).region_placeholder@ == (match source.default_region {
                Some(region) => "Region (optional, default "@ + region@ + ")"@,
                None => "(Not required)"@,
            }),
            final(self).region@ == (match source.default_region {
                Some(region) => region@,
                None => Seq::empty(),
            }),
    {
        self.access_key_placeholder = source.access_key_label;
        self.secret_key_placeholder = source.secret_key_placeholder();
        self.region_placeholder = source.region_placeholder();
        self.region = match source.default_region {
            Some(region) => region.to_owned(),
            None => String::new(),
        };
    }

    /// Enter credentials that were found. A missing secret or region leaves its
    /// field as it was.
    pub fn fill(&mut self, found: FoundCredentials)
        ensures
            *final(self) == (AccountForm {
                access_key: found.access_key,
                secret_key: match found.secret_key {
                    Some(secret_key) => secret_key,
                    None => old(self).secret_key,
                },
                region: match found.region {
                    Some(region) => region,
                    None => old(self).region,
                },
                ..*old(self)
            }),
    {
        self.access_key = found.access_key;
        if let Some(secret_key) = found.secret_key {
            self.secret_key = secret_key;
        }
        if let Some(region) = found.region {
            self.region = region;
        }
    }
}

// ==================== The account ====================

/// What is wrong with a form, in the order the fields are looked at.
pub open spec fn form_fault(form: AccountForm, source: cloud::SourceFacts) -> Option<Seq<char>> {
    let uri = text::trimmed(form.export_uri@);
    if form.name@.len() == 0 {
        Some("Enter a name for the account."@)
    } else if form.access_key@.len() == 0 && source.bill_file is None {
        Some("Enter the "@ + source.access_key_label + "."@)
    } else if form.secret_key@.len() == 0 && form.access_key@.len() > 0
        && source.secret_key_label is Some {
        Some("Enter the "@ + source.secret_key_label->0 + "."@)
    } else if uri.len() > 0 && !text::begins_with(uri, "s3://"@) {
        Some("The export URI starts with s3://, e.g. s3://bucket/prefix/export-name."@)
    } else {
        None
    }
}

/// An account to save, with its credentials.
#[derive(Debug)]
pub struct AccountDraft {
    pub account: CloudAccount,
    pub access_key: String,
    pub secret_key: String,
    /// The account's bill is fetched as soon as it is saved.
    pub fetch_after_save: bool,
    /// The bill export to import, for an account whose bill is not fetched.
    pub import_hint: Option<&'static str>,
}

/// `text`, unless it is empty.
pub open spec fn unless_empty(text: Seq<char>) -> Option<Seq<char>> {
    if text.len() == 0 {
        None
    } else {
        Some(text)
    }
}

/// The account that a form describes for a source, made at `now`.
pub open spec fn drafts(
    draft: AccountDraft,
    form: AccountForm,
    source: cloud::SourceFacts,
    now: Timestamp,
) -> bool {
    let account = draft.account;
    &&& account.name@ == form.name@
    &&& account.source_id.id@ == source.id
    &&& order::part_view(account.region) == unless_empty(form.region@)
    &&& account.created_at == now
    &&& account.last_synced_at is None
    &&& account.enabled
    &&& account.access_key_hint is None
    &&& order::part_view(account.export_uri) == unless_empty(text::trimmed(form.export_uri@))
    &&& draft.access_key@ == form.access_key@
    &&& draft.secret_key@ == form.secret_key@
    &&& draft.fetch_after_save == (source.fetches_from_api && form.access_key@.len() > 0)
    &&& cloud::label_view(draft.import_hint) == (match source.bill_file {
        Some(format) => if draft.fetch_after_save {
            None
        } else {
            Some(format.display_name)
        },
        None => None,
    })
}

fn nonempty(text: String) -> (res: Option<String>)
    ensures
        order::part_view(res) == unless_empty(text@),
{
    if is_empty_text(&text) {
        None
    } else {
        Some(text)
    }
}

/// The account that a form describes, under `id`, or what is wrong with the
/// form. A source whose bill can be imported from a file needs no credentials.
pub fn draft_account(
    form: &AccountForm,
    source: &SourceDescriptor,
    id: String,
    now: Timestamp,
) -> (res: Result<AccountDraft, String>)
    ensures
        match form_fault(*form, source@) {
            Some(fault) => res is Err && res->Err_0@ == fault,
            None => {
                &&& res is Ok
                &&& res->Ok_0.account.id == id
                &&& drafts(res->Ok_0, *form, source@, now)
            },
        },
{
    if is_empty_text(&form.name) {
        return Err("Enter a name for the account.".to_owned());
    }
    let no_key = is_empty_text(&form.access_key);
    if no_key && !source.credentials_optional() {
        return Err(concat3("Enter the ", source.access_key_label, "."));
    }
    if is_empty_text(&form.secret_key) && !no_key {
        if let Some(label) = source.secret_key_label {
            return Err(concat3("Enter the ", label, "."));
        }
    }
    let uri = text::trim(&form.export_uri);
    if !is_empty_text(&uri) && !text::starts_with(&uri, "s3://") {
        return Err(
            "The export URI starts with s3://, e.g. s3://bucket/prefix/export-name.".to_owned(),
        );
    }
    let fetch_after_save = source.fetches_from_api() && !no_key;
    let import_hint = match &source.bill_file {
        Some(format) => if fetch_after_save {
            None
        } else {
            Some(format.display_name)
        },
        None => None,
    };
    let account = CloudAccount {
        id,
        name: form.name.clone(),
        source_id: source.source_id(),
        region: nonempty(form.region.clone()),
        created_at: now,
        last_synced_at: None,
        enabled: true,
        access_key_hint: None,
        export_uri: nonempty(uri),
    };
    Ok(
        AccountDraft {
            account,
            access_key: form.access_key.clone(),
            secret_key: form.secret_key.clone(),
            fetch_after_save,
            import_hint,
        },
    )
}

/// What is said once an account without a bill to fetch is saved.
pub open spec fn added_text(name: Seq<char>, import_hint: Option<Seq<char>>) -> Seq<char> {
    match import_hint {
        Some(format) => "Added "@ + name + ". Use Import on its row to read the "@ + format + "."@,
        None => "Added "@ + name + "."@,
    }
}

/// What is said once an account without a bill to fetch is saved.
pub fn added_message(draft: &AccountDraft) -> (res: String)
    ensures
        res@ == added_text(draft.account.name@, cloud::label_view(draft.import_hint)),
{
    match draft.import_hint {
        Some(format) => {
            let mut out = concat3(
                "Added ",
                &draft.account.name,
                ". Use Import on its row to read the ",
            );
            out.append(format);
            out.append(".");
            out
        },
        None => concat3("Added ", &draft.account.name, "."),
    }
}

// ==================== Filling in ====================

/// What the last attempt to fill the form from this machine came to.
#[derive(Debug)]
pub enum FillStatus {
    /// Filled, from the variable or file named.
    Filled(String),
    /// Nothing found, having looked in the places named.
    NotFound(String),
}

impl FillStatus {
    pub open spec fn shown(self) -> Seq<char> {
        match self {
            FillStatus::Filled(origin) => "Filled from "@ + origin@,
            FillStatus::NotFound(places) => "No credentials found in "@ + places@,
        }
    }

    pub fn caption(&self) -> (res: String)
        ensures
            res@ == self.shown(),
    {
        match self {
            FillStatus::Filled(origin) => concat2("Filled from ", origin),
            FillStatus::NotFound(places) => concat2("No credentials found in ", places),
        }
    }
}

} // verus!
