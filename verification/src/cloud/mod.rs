//! Billing sources: what each is called, which credentials it wants, what it
//! reports, and whether its bill export is a way in.
use vstd::prelude::*;

pub mod raw;
pub mod registry;

use crate::error::Error;
use crate::list;
use crate::model::{CloudAccount, Reporting, SourceId};
use crate::order;
use crate::text;

verus! {

/// The credentials a client would be built from.
#[derive(Debug)]
pub struct SourceContext {
    pub access_key_id: String,
    pub secret_access_key: String,
    pub region: Option<String>,
    /// Where the provider's own billing export lands, if the account is backed
    /// by one.
    pub export_uri: Option<String>,
}

/// A source of billing data.
pub trait BillingSource {
    /// Validate credentials against the provider.
    fn validate_credentials(&self) -> Result<bool, Error>;
}

/// A client that explains itself rather than reaching a provider.
///
/// A button that silently did nothing would be worse than one that says why it
/// cannot.
#[derive(Debug)]
pub struct UnreachableApi {
    pub provider: &'static str,
}

impl BillingSource for UnreachableApi {
    /// Always refused, with a sentence that names the provider.
    fn validate_credentials(&self) -> (res: Result<bool, Error>)
        ensures
            res is Err,
            res->Err_0.message@ == "The web demo cannot reach "@ + self.provider@
                + " — it runs entirely on demo data"@,
    {
        Err(
            Error::of(
                text::concat3(
                    "The web demo cannot reach ",
                    self.provider,
                    " — it runs entirely on demo data",
                ),
            ),
        )
    }
}

/// A provider's own bill export, as far as describing it needs.
#[derive(Debug)]
pub struct BillFileFormat {
    /// What the provider calls this export.
    pub display_name: &'static str,
    /// Where the export is produced, for the dialog's hint.
    pub origin_hint: &'static str,
    /// Filename extensions the import would accept.
    pub extensions: Vec<&'static str>,
}

/// Extensions with their dots.
pub open spec fn dotted(extensions: Seq<&'static str>) -> Seq<Seq<char>> {
    extensions.map_values(|e: &'static str| "."@ + e@)
}

impl BillFileFormat {
    /// The extensions, as `.zip or .csv`.
    pub fn extension_hint(&self) -> (res: String)
        ensures
            res@ == text::joined(dotted(self.extensions@), " or "@),
    {
        let mut parts: Vec<String> = Vec::new();
        let mut i: usize = 0;
        while i < self.extensions.len()
            invariant
                i <= self.extensions.len(),
                text::texts(parts@) == dotted(self.extensions@).take(i as int),
            decreases self.extensions.len() - i,
        {
            let ghost before = text::texts(parts@);
            parts.push(text::concat2(".", self.extensions[i]));
            i = i + 1;
            proof {
                assert(text::texts(parts@) =~= before.push(dotted(self.extensions@)[i - 1]));
                assert(text::texts(parts@) =~= dotted(self.extensions@).take(i as int));
            }
        }
        proof {
            assert(text::texts(parts@) =~= dotted(self.extensions@));
        }
        text::join(&parts, " or ")
    }
}

/// A place a source's credentials conventionally sit. There is none that this
/// build can reach.
#[derive(Debug)]
pub struct SystemCredentials {
    /// Path or variable name.
    pub origin: &'static str,
}

/// Credentials read off the machine, as the account form expects them back.
#[derive(Debug)]
pub struct FoundCredentials {
    pub access_key: String,
    pub secret_key: Option<String>,
    pub region: Option<String>,
    /// Where the key came from, so the form can say what it was filled from.
    pub origin: String,
}

/// Everything a page needs to know about a billing source.
#[derive(Debug)]
pub struct SourceDescriptor {
    pub id: &'static str,
    pub display_name: &'static str,
    pub short_name: &'static str,
    /// Label for the public half of the credential.
    pub access_key_label: &'static str,
    /// Label for the secret half, or `None` when the source authenticates with
    /// a single key.
    pub secret_key_label: Option<&'static str>,
    /// Region applied when the user leaves the field blank, or `None` when the
    /// source has no notion of a region.
    pub default_region: Option<&'static str>,
    pub reporting: Reporting,
    /// Whether the source has a billing API.
    pub fetches_from_api: bool,
    /// How this source's own bill export would be read, or `None` for a source
    /// that publishes none.
    pub bill_file: Option<BillFileFormat>,
    /// Where this source's credentials conventionally sit on the machine, or
    /// `None` for a source with no such convention.
    pub local_credentials: Option<SystemCredentials>,
}

/// A bill export, as values.
pub ghost struct FormatFacts {
    pub display_name: Seq<char>,
    pub origin_hint: Seq<char>,
    pub extensions: Seq<Seq<char>>,
}

/// A source, as values.
pub ghost struct SourceFacts {
    pub id: Seq<char>,
    pub display_name: Seq<char>,
    pub short_name: Seq<char>,
    pub access_key_label: Seq<char>,
    pub secret_key_label: Option<Seq<char>>,
    pub default_region: Option<Seq<char>>,
    pub reporting: Reporting,
    pub fetches_from_api: bool,
    pub bill_file: Option<FormatFacts>,
    pub local_credentials: Option<SystemCredentials>,
}

impl View for BillFileFormat {
    type V = FormatFacts;

    open spec fn view(&self) -> FormatFacts {
        FormatFacts {
            display_name: self.display_name@,
            origin_hint: self.origin_hint@,
            extensions: self.extensions@.map_values(|e: &'static str| e@),
        }
    }
}

pub open spec fn label_view(label: Option<&'static str>) -> Option<Seq<char>> {
    match label {
        Some(label) => Some(label@),
        None => None,
    }
}

impl View for SourceDescriptor {
    type V = SourceFacts;

    open spec fn view(&self) -> SourceFacts {
        SourceFacts {
            id: self.id@,
            display_name: self.display_name@,
            short_name: self.short_name@,
            access_key_label: self.access_key_label@,
            secret_key_label: label_view(self.secret_key_label),
            default_region: label_view(self.default_region),
            reporting: self.reporting,
            fetches_from_api: self.fetches_from_api,
            bill_file: match self.bill_file {
                Some(format) => Some(format@),
                None => None,
            },
            local_credentials: self.local_credentials,
        }
    }
}

impl SourceDescriptor {
    pub fn source_id(&self) -> (res: SourceId)
        ensures
            res.id@ == self.id@,
    {
        SourceId::of(self.id)
    }

    /// Whether the credential form should require a secret key.
    pub fn needs_secret_key(&self) -> (res: bool)
        ensures
            res == (self.secret_key_label is Some),
    {
        self.secret_key_label.is_some()
    }

    pub fn secret_key_placeholder(&self) -> (res: &'static str)
        ensures
            res@ == (match self.secret_key_label {
                Some(label) => label@,
                None => "(Not required, leave empty)"@,
            }),
    {
        match self.secret_key_label {
            Some(label) => label,
            None => "(Not required, leave empty)",
        }
    }

    pub fn region_placeholder(&self) -> (res: String)
        ensures
            res@ == (match self.default_region {
                Some(region) => "Region (optional, default "@ + region@ + ")"@,
                None => "(Not required)"@,
            }),
    {
        match self.default_region {
            Some(region) => text::concat3("Region (optional, default ", region, ")"),
            None => "(Not required)".to_owned(),
        }
    }

    /// Region to use for an account that stored none.
    pub fn region_or_default(&self, region: Option<String>) -> (res: Option<String>)
        ensures
            order::part_view(res) == (match region {
                Some(region) => Some(region@),
                None => label_view(self.default_region),
            }),
    {
        match region {
            Some(region) => Some(region),
            None => match self.default_region {
                Some(region) => Some(region.to_owned()),
                None => None,
            },
        }
    }

    /// Credentials found on this machine: none, for there is nowhere to look.
    pub fn credentials_from_system(&self) -> (res: Option<FoundCredentials>)
        ensures
            res is None,
    {
        None
    }

    /// The places [`Self::credentials_from_system`] would have looked.
    pub fn credential_places(&self) -> (res: Vec<String>)
        ensures
            res@.len() == 0,
    {
        Vec::new()
    }

    /// Whether this source can be fetched from over the network.
    pub fn fetches_from_api(&self) -> (res: bool)
        ensures
            res == self.fetches_from_api,
    {
        self.fetches_from_api
    }

    /// Why a source without a billing API has no client.
    pub open spec fn no_api(self) -> Seq<char> {
        self.display_name@ + " has no billing API in this build"@ + (match self.bill_file {
            Some(format) => "; import its "@ + format.display_name@ + " instead"@,
            None => Seq::empty(),
        })
    }

    /// Build the client, or say why this source has none.
    pub fn client(&self, _context: SourceContext) -> (res: Result<UnreachableApi, Error>)
        ensures
            res is Ok <==> self.fetches_from_api,
            res is Ok ==> res->Ok_0.provider@ == self.display_name@,
            res is Err ==> res->Err_0.message@ == self.no_api(),
    {
        if !self.fetches_from_api {
            let mut message = text::concat2(
                self.display_name,
                " has no billing API in this build",
            );
            let hint = match &self.bill_file {
                Some(format) => text::concat3("; import its ", format.display_name, " instead"),
                None => String::new(),
            };
            message.append(&hint);
            return Err(Error::of(message));
        }
        Ok(UnreachableApi { provider: self.display_name })
    }

    /// Whether this source reports a balance rather than a period cost.
    pub fn is_snapshot(&self) -> (res: bool)
        ensures
            res == (self.reporting == Reporting::Snapshot),
    {
        match self.reporting {
            Reporting::Snapshot => true,
            Reporting::Periodic => false,
        }
    }

    /// Whether a bill export can be imported for this source.
    pub fn imports_bill_file(&self) -> (res: bool)
        ensures
            res == (self.bill_file is Some),
    {
        self.bill_file.is_some()
    }

    /// Whether an account of this source is usable without credentials.
    pub fn credentials_optional(&self) -> (res: bool)
        ensures
            res == (self.bill_file is Some),
    {
        self.imports_bill_file()
    }
}

// ==================== The sources there are ====================

fn bill_format(
    display_name: &'static str,
    origin_hint: &'static str,
    extensions: Vec<&'static str>,
) -> (res: BillFileFormat)
    ensures
        res.display_name@ == display_name@,
        res.origin_hint@ == origin_hint@,
        res.extensions@ == extensions@,
{
    BillFileFormat { display_name, origin_hint, extensions }
}

pub open spec fn aws_facts() -> SourceFacts {
    SourceFacts {
        id: "AWS"@,
        display_name: "Amazon Web Services"@,
        short_name: "AWS"@,
        access_key_label: "Access Key ID"@,
        secret_key_label: Some("Secret Access Key"@),
        default_region: Some("us-east-1"@),
        reporting: Reporting::Periodic,
        fetches_from_api: true,
        bill_file: None,
        local_credentials: None,
    }
}

fn aws() -> (res: SourceDescriptor)
    ensures
        res@ == aws_facts(),
{
    let res = SourceDescriptor {
        id: "AWS",
        display_name: "Amazon Web Services",
        short_name: "AWS",
        access_key_label: "Access Key ID",
        secret_key_label: Some("Secret Access Key"),
        default_region: Some("us-east-1"),
        reporting: Reporting::Periodic,
        fetches_from_api: true,
        bill_file: None,
        local_credentials: None,
    };
    res
}

pub open spec fn aliyun_facts() -> SourceFacts {
    SourceFacts {
        id: "Aliyun"@,
        display_name: "Alibaba Cloud"@,
        short_name: "Aliyun"@,
        access_key_label: "AccessKey ID"@,
        secret_key_label: Some("AccessKey Secret"@),
        default_region: Some("cn-hangzhou"@),
        reporting: Reporting::Periodic,
        fetches_from_api: true,
        bill_file: Some(
            FormatFacts {
                display_name: "bill export"@,
                origin_hint: "Expenses and Costs → Bill Details → Export"@,
                extensions: seq!["csv"@],
            },
        ),
        local_credentials: None,
    }
}

fn aliyun() -> (res: SourceDescriptor)
    ensures
        res@ == aliyun_facts(),
{
    let mut extensions: Vec<&'static str> = Vec::new();
    extensions.push("csv");
    let res = SourceDescriptor {
        id: "Aliyun",
        display_name: "Alibaba Cloud",
        short_name: "Aliyun",
        access_key_label: "AccessKey ID",
        secret_key_label: Some("AccessKey Secret"),
        default_region: Some("cn-hangzhou"),
        reporting: Reporting::Periodic,
        fetches_from_api: true,
        bill_file: Some(
            bill_format("bill export", "Expenses and Costs → Bill Details → Export", extensions),
        ),
        local_credentials: None,
    };
    proof {
        assert(res.bill_file->0@.extensions =~= aliyun_facts().bill_file->0.extensions);
    }
    res
}

pub open spec fn deepseek_facts() -> SourceFacts {
    SourceFacts {
        id: "DeepSeek"@,
        display_name: "DeepSeek"@,
        short_name: "DeepSeek"@,
        access_key_label: "API Key"@,
        secret_key_label: None,
        default_region: None,
        reporting: Reporting::Snapshot,
        fetches_from_api: true,
        bill_file: Some(
            FormatFacts {
                display_name: "usage export"@,
                origin_hint: "Usage → Download"@,
                extensions: seq!["zip"@, "csv"@],
            },
        ),
        local_credentials: None,
    }
}

fn deepseek() -> (res: SourceDescriptor)
    ensures
        res@ == deepseek_facts(),
{
    let mut extensions: Vec<&'static str> = Vec::new();
    extensions.push("zip");
    extensions.push("csv");
    let res = SourceDescriptor {
        id: "DeepSeek",
        display_name: "DeepSeek",
        short_name: "DeepSeek",
        access_key_label: "API Key",
        secret_key_label: None,
        default_region: None,
        reporting: Reporting::Snapshot,
        fetches_from_api: true,
        bill_file: Some(
            bill_format("usage export", "Usage → Download", extensions),
        ),
        local_credentials: None,
    };
    proof {
        assert(res.bill_file->0@.extensions =~= deepseek_facts().bill_file->0.extensions);
    }
    res
}

pub open spec fn volcengine_facts() -> SourceFacts {
    SourceFacts {
        id: "Volcengine"@,
        display_name: "Volcengine (火山引擎)"@,
        short_name: "Volcengine"@,
        access_key_label: "Access Key ID"@,
        secret_key_label: Some("Secret Access Key"@),
        default_region: None,
        reporting: Reporting::Periodic,
        fetches_from_api: false,
        bill_file: Some(
            FormatFacts {
                display_name: "bill export"@,
                origin_hint: "Billing → Bill Details → Export"@,
                extensions: seq!["csv"@],
            },
        ),
        local_credentials: None,
    }
}

fn volcengine() -> (res: SourceDescriptor)
    ensures
        res@ == volcengine_facts(),
{
    let mut extensions: Vec<&'static str> = Vec::new();
    extensions.push("csv");
    let res = SourceDescriptor {
        id: "Volcengine",
        display_name: "Volcengine (火山引擎)",
        short_name: "Volcengine",
        access_key_label: "Access Key ID",
        secret_key_label: Some("Secret Access Key"),
        default_region: None,
        reporting: Reporting::Periodic,
        fetches_from_api: false,
        bill_file: Some(
            bill_format("bill export", "Billing → Bill Details → Export", extensions),
        ),
        local_credentials: None,
    };
    proof {
        assert(res.bill_file->0@.extensions =~= volcengine_facts().bill_file->0.extensions);
    }
    res
}

pub open spec fn openai_facts() -> SourceFacts {
    SourceFacts {
        id: "OpenAI"@,
        display_name: "OpenAI"@,
        short_name: "OpenAI"@,
        access_key_label: "Admin API Key"@,
        secret_key_label: None,
        default_region: None,
        reporting: Reporting::Periodic,
        fetches_from_api: false,
        bill_file: Some(
            FormatFacts {
                display_name: "usage export"@,
                origin_hint: "Usage → Export"@,
                extensions: seq!["csv"@],
            },
        ),
        local_credentials: None,
    }
}

fn openai() -> (res: SourceDescriptor)
    ensures
        res@ == openai_facts(),
{
    let mut extensions: Vec<&'static str> = Vec::new();
    extensions.push("csv");
    let res = SourceDescriptor {
        id: "OpenAI",
        display_name: "OpenAI",
        short_name: "OpenAI",
        access_key_label: "Admin API Key",
        secret_key_label: None,
        default_region: None,
        reporting: Reporting::Periodic,
        fetches_from_api: false,
        bill_file: Some(
            bill_format("usage export", "Usage → Export", extensions),
        ),
        local_credentials: None,
    };
    proof {
        assert(res.bill_file->0@.extensions =~= openai_facts().bill_file->0.extensions);
    }
    res
}

pub open spec fn anthropic_facts() -> SourceFacts {
    SourceFacts {
        id: "Anthropic"@,
        display_name: "Anthropic"@,
        short_name: "Anthropic"@,
        access_key_label: "Admin API Key"@,
        secret_key_label: None,
        default_region: None,
        reporting: Reporting::Periodic,
        fetches_from_api: false,
        bill_file: Some(
            FormatFacts {
                display_name: "usage export"@,
                origin_hint: "Usage or Cost → Export"@,
                extensions: seq!["csv"@],
            },
        ),
        local_credentials: None,
    }
}

fn anthropic() -> (res: SourceDescriptor)
    ensures
        res@ == anthropic_facts(),
{
    let mut extensions: Vec<&'static str> = Vec::new();
    extensions.push("csv");
    let res = SourceDescriptor {
        id: "Anthropic",
        display_name: "Anthropic",
        short_name: "Anthropic",
        access_key_label: "Admin API Key",
        secret_key_label: None,
        default_region: None,
        reporting: Reporting::Periodic,
        fetches_from_api: false,
        bill_file: Some(
            bill_format("usage export", "Usage or Cost → Export", extensions),
        ),
        local_credentials: None,
    };
    proof {
        assert(res.bill_file->0@.extensions =~= anthropic_facts().bill_file->0.extensions);
    }
    res
}

/// Every source, in the order the picker shows them.
pub open spec fn sources() -> Seq<SourceFacts> {
    seq![
        aws_facts(),
        aliyun_facts(),
        deepseek_facts(),
        volcengine_facts(),
        openai_facts(),
        anthropic_facts(),
    ]
}

/// Every source, in the order the picker shows them.
pub fn all() -> (res: Vec<SourceDescriptor>)
    ensures
        res@.map_values(|d: SourceDescriptor| d@) == sources(),
{
    let mut res: Vec<SourceDescriptor> = Vec::new();
    res.push(aws());
    res.push(aliyun());
    res.push(deepseek());
    res.push(volcengine());
    res.push(openai());
    res.push(anthropic());
    proof {
        assert(res@.map_values(|d: SourceDescriptor| d@) =~= sources());
    }
    res
}

/// Being registered under an id.
pub open spec fn has_id(id: Seq<char>) -> spec_fn(SourceFacts) -> bool {
    |facts: SourceFacts| facts.id == id
}

/// The source registered under an id.
pub open spec fn source_of(id: Seq<char>) -> Option<SourceFacts> {
    match list::first_index(sources(), has_id(id)) {
        Some(i) => Some(sources()[i]),
        None => None,
    }
}

/// A source is registered under an id.
pub open spec fn is_registered(id: Seq<char>) -> bool {
    id == "AWS"@ || id == "Aliyun"@ || id == "DeepSeek"@ || id == "Volcengine"@ || id == "OpenAI"@
        || id == "Anthropic"@
}

/// Six sources are registered, each found under its own id.
pub proof fn registered_sources_are_found(id: Seq<char>)
    ensures
        source_of(id) is Some <==> is_registered(id),
        source_of(id) is Some ==> source_of(id)->0.id == id,
{
    list::first_index_is_first(sources(), has_id(id));
    assert(sources()[0].id == "AWS"@);
    assert(sources()[1].id == "Aliyun"@);
    assert(sources()[2].id == "DeepSeek"@);
    assert(sources()[3].id == "Volcengine"@);
    assert(sources()[4].id == "OpenAI"@);
    assert(sources()[5].id == "Anthropic"@);
    if source_of(id) is None {
        let test = has_id(id);
        assert(!test(sources()[0]) && !test(sources()[1]) && !test(sources()[2])
            && !test(sources()[3]) && !test(sources()[4]) && !test(sources()[5]));
    }
}

/// No two sources share an id, so looking a source up by its id gives that very
/// source back.
pub proof fn a_source_is_found_by_its_id(i: int)
    requires
        0 <= i < sources().len(),
    ensures
        source_of(sources()[i].id) == Some(sources()[i]),
        forall|j: int|
            0 <= j < sources().len() && (#[trigger] sources()[j]).id == sources()[i].id ==> j == i,
{
    reveal_strlit("AWS");
    reveal_strlit("Aliyun");
    reveal_strlit("DeepSeek");
    reveal_strlit("Volcengine");
    reveal_strlit("OpenAI");
    reveal_strlit("Anthropic");
    let ids = sources();
    assert(ids[0].id == "AWS"@ && ids[1].id == "Aliyun"@ && ids[2].id == "DeepSeek"@);
    assert(ids[3].id == "Volcengine"@ && ids[4].id == "OpenAI"@ && ids[5].id == "Anthropic"@);
    assert("AWS"@.len() == 3 && "Aliyun"@.len() == 6 && "OpenAI"@.len() == 6);
    assert("Aliyun"@[0] == 'A' && "OpenAI"@[0] == 'O');
    assert("DeepSeek"@.len() == 8 && "Volcengine"@.len() == 10 && "Anthropic"@.len() == 9);
    list::first_index_is_first(ids, has_id(ids[i].id));
    let test = has_id(ids[i].id);
    assert(test(ids[i]));
}

/// The descriptor registered under `id`, if any.
pub fn get(id: &str) -> (res: Option<SourceDescriptor>)
    ensures
        match source_of(id@) {
            Some(facts) => res is Some && res->0@ == facts,
            None => res is None,
        },
{
    let mut rest = all();
    let ghost facts = sources();
    let ghost test = has_id(id@);
    let mut n: usize = 0;
    proof {
        list::first_index_is_first(facts, test);
    }
    while rest.len() > 0
        invariant
            facts == sources(),
            test == has_id(id@),
            n + rest@.len() == facts.len(),
            forall|i: int| 0 <= i < rest@.len() ==> (#[trigger] rest@[i])@ == facts[n + i],
            forall|j: int| 0 <= j < n ==> !test(#[trigger] facts[j]),
        decreases rest@.len(),
    {
        let source = rest.remove(0);
        proof {
            list::first_index_is_first(facts, test);
            assert(source@ == facts[n as int]);
        }
        if text::same_text(source.id, id) {
            proof {
                match list::first_index(facts, test) {
                    Some(k) => {
                        if k < n {
                            assert(!test(facts[k]));
                        }
                        if n < k {
                            assert(!test(facts[n as int]));
                        }
                    },
                    None => {
                        assert(!test(facts[n as int]));
                    },
                }
            }
            return Some(source);
        }
        n = n + 1;
    }
    proof {
        list::first_index_is_first(facts, test);
    }
    None
}

/// The source a fresh account form opens on.
pub fn default_source() -> (res: SourceDescriptor)
    ensures
        res@ == sources()[0],
{
    aws()
}

impl SourceId {
    /// The descriptor for this id, or `None` if no source is registered under
    /// it.
    pub fn descriptor(&self) -> (res: Option<SourceDescriptor>)
        ensures
            match source_of(self.id@) {
                Some(facts) => res is Some && res->0@ == facts,
                None => res is None,
            },
    {
        get(self.as_str())
    }
}

impl CloudAccount {
    /// The descriptor for this account's source, or `None` if the stored id is
    /// not registered in this build.
    pub fn descriptor(&self) -> (res: Option<SourceDescriptor>)
        ensures
            match source_of(self.source_id.id@) {
                Some(facts) => res is Some && res->0@ == facts,
                None => res is None,
            },
    {
        self.source_id.descriptor()
    }
}

} // verus!
