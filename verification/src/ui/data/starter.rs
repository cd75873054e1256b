//! Starter queries, and the answer of an ad-hoc one.
use vstd::prelude::*;

use crate::ledger::query::run_adhoc;

verus! {

/// One starter query. The statement is what runs; the other parts only organize
/// the picker.
#[derive(Clone, Copy, Debug)]
pub struct QueryTemplate {
    pub category: &'static str,
    pub title: &'static str,
    pub description: &'static str,
    pub sql: &'static str,
}

/// A starter query, as values.
pub ghost struct TemplateFacts {
    pub category: Seq<char>,
    pub title: Seq<char>,
    pub description: Seq<char>,
    pub sql: Seq<char>,
}

impl View for QueryTemplate {
    type V = TemplateFacts;

    open spec fn view(&self) -> TemplateFacts {
        TemplateFacts {
            category: self.category@,
            title: self.title@,
            description: self.description@,
            sql: self.sql@,
        }
    }
}

pub const SPEND_OVERVIEW: &'static str = "Spend overview";

pub const COMPOSITION: &'static str = "Composition";

pub const FORECAST_AND_TRENDS: &'static str = "Forecast & trends";

pub const DATA_HEALTH: &'static str = "Data health";

/// Monthly spend.
pub const MONTHLY_SPEND_SQL: &'static str = "SELECT billing_period,
       reporting_currency AS currency,
       ROUND(SUM(billed_cost_base), 2) AS spend
FROM v_charge_normalized
GROUP BY billing_period, reporting_currency
ORDER BY billing_period";

/// Spend by provider × month.
pub const SPEND_BY_PROVIDER_BY_MONTH_SQL: &'static str = "SELECT billing_period,
       provider,
       reporting_currency AS currency,
       ROUND(SUM(billed_cost_base), 2) AS spend
FROM v_charge_normalized
GROUP BY billing_period, provider, reporting_currency
ORDER BY billing_period, spend DESC";

/// Daily spend, last 30 days.
pub const DAILY_SPEND_LAST_30_DAYS_SQL: &'static str = "SELECT CAST(charge_period_start AS DATE) AS day,
       reporting_currency AS currency,
       ROUND(SUM(billed_cost_base), 2) AS spend
FROM v_charge_normalized
WHERE charge_period_start >= CURRENT_DATE - INTERVAL 30 DAY
GROUP BY day, reporting_currency
ORDER BY day";

/// Top 20 services this month.
pub const TOP_20_SERVICES_THIS_MONTH_SQL: &'static str = "SELECT provider,
       service_name,
       reporting_currency AS currency,
       ROUND(SUM(billed_cost_base), 2) AS spend
FROM v_charge_normalized
WHERE billing_period = strftime(CURRENT_DATE, '%Y-%m')
GROUP BY provider, service_name, reporting_currency
ORDER BY spend DESC
LIMIT 20";

/// Spend by business line.
pub const SPEND_BY_BUSINESS_LINE_SQL: &'static str = "SELECT coalesce(nullif(json_extract_string(tags, 'business_line'), ''), 'Unallocated') AS business_line,
       reporting_currency AS currency,
       ROUND(SUM(billed_cost_base), 2) AS spend
FROM v_charge_normalized
GROUP BY business_line, reporting_currency
ORDER BY spend DESC";

/// Unallocated spend by service.
pub const UNALLOCATED_SPEND_BY_SERVICE_SQL: &'static str = "SELECT provider,
       service_name,
       reporting_currency AS currency,
       ROUND(SUM(billed_cost_base), 2) AS spend
FROM v_charge_normalized
WHERE coalesce(nullif(json_extract_string(tags, 'business_line'), ''), '') = ''
GROUP BY provider, service_name, reporting_currency
ORDER BY spend DESC
LIMIT 20";

/// Month-end forecast.
pub const MONTH_END_FORECAST_SQL: &'static str = "WITH mtd AS (
    SELECT SUM(billed_cost_base) AS cost,
           MIN(charge_period_start::DATE) AS first_day
    FROM v_charge_normalized
    WHERE billing_period = strftime(CURRENT_DATE, '%Y-%m')
)
SELECT ROUND(cost, 2) AS month_to_date,
       ROUND(cost / (CURRENT_DATE - greatest(date_trunc('month', CURRENT_DATE)::DATE, first_day) + 1), 2) AS daily_rate,
       ROUND(cost + cost / (CURRENT_DATE - greatest(date_trunc('month', CURRENT_DATE)::DATE, first_day) + 1)
             * date_diff('day', CURRENT_DATE, last_day(CURRENT_DATE)), 2) AS month_end_forecast
FROM mtd";

/// Month over month by service.
pub const MONTH_OVER_MONTH_BY_SERVICE_SQL: &'static str = "SELECT service_name,
       reporting_currency AS currency,
       ROUND(SUM(CASE WHEN billing_period = strftime(CURRENT_DATE, '%Y-%m') THEN billed_cost_base END), 2) AS this_month,
       ROUND(SUM(CASE WHEN billing_period = strftime(CURRENT_DATE - INTERVAL 1 MONTH, '%Y-%m') THEN billed_cost_base END), 2) AS last_month,
       ROUND(coalesce(this_month, 0) - coalesce(last_month, 0), 2) AS change
FROM v_charge_normalized
WHERE billing_period IN (strftime(CURRENT_DATE, '%Y-%m'),
                         strftime(CURRENT_DATE - INTERVAL 1 MONTH, '%Y-%m'))
GROUP BY service_name, reporting_currency
ORDER BY greatest(coalesce(this_month, 0), coalesce(last_month, 0)) DESC
LIMIT 20";

/// Spend by region this month.
pub const SPEND_BY_REGION_THIS_MONTH_SQL: &'static str = "SELECT coalesce(region_id, 'Other') AS region,
       reporting_currency AS currency,
       ROUND(SUM(billed_cost_base), 2) AS spend
FROM v_charge_normalized
WHERE billing_period = strftime(CURRENT_DATE, '%Y-%m')
GROUP BY region, reporting_currency
ORDER BY spend DESC";

/// Spend by service category this month.
pub const SPEND_BY_SERVICE_CATEGORY_THIS_MONTH_SQL: &'static str = "SELECT coalesce(service_category, 'Other') AS category,
       reporting_currency AS currency,
       ROUND(SUM(billed_cost_base), 2) AS spend
FROM v_charge_normalized
WHERE billing_period = strftime(CURRENT_DATE, '%Y-%m')
GROUP BY category, reporting_currency
ORDER BY spend DESC";

/// Top 20 resources this month.
pub const TOP_20_RESOURCES_THIS_MONTH_SQL: &'static str = "SELECT provider,
       service_name,
       coalesce(resource_name, resource_id) AS resource,
       reporting_currency AS currency,
       ROUND(SUM(billed_cost_base), 2) AS spend
FROM v_charge_normalized
WHERE billing_period = strftime(CURRENT_DATE, '%Y-%m')
  AND resource_id IS NOT NULL
GROUP BY provider, service_name, resource, reporting_currency
ORDER BY spend DESC
LIMIT 20";

/// Discount vs list price.
pub const DISCOUNT_VS_LIST_PRICE_SQL: &'static str = "SELECT provider,
       service_name,
       reporting_currency AS currency,
       ROUND(SUM(list_cost * fx_rate), 2) AS list_spend,
       ROUND(SUM(billed_cost_base), 2) AS billed_spend,
       ROUND(SUM(list_cost * fx_rate) - SUM(billed_cost_base), 2) AS discount
FROM v_charge_normalized
WHERE billing_period = strftime(CURRENT_DATE, '%Y-%m')
  AND list_cost IS NOT NULL
  AND fx_rate IS NOT NULL
GROUP BY provider, service_name, reporting_currency
HAVING SUM(list_cost * fx_rate) > 0
ORDER BY discount DESC
LIMIT 20";

/// Recent ingest batches.
pub const RECENT_INGEST_BATCHES_SQL: &'static str = "SELECT provider,
       account_id,
       billing_period,
       channel,
       status,
       row_count,
       started_at
FROM ingest_batch
ORDER BY started_at DESC
LIMIT 20";

/// Latest balance snapshots.
pub const LATEST_BALANCE_SNAPSHOTS_SQL: &'static str = "SELECT s.provider,
       s.account_id,
       s.observed_at,
       s.balance,
       s.currency
FROM fct_balance_snapshot s
JOIN (
    SELECT provider, account_id, MAX(observed_at) AS observed_at
    FROM fct_balance_snapshot
    GROUP BY provider, account_id
) latest
  ON s.provider = latest.provider
 AND s.account_id = latest.account_id
 AND s.observed_at = latest.observed_at
ORDER BY s.provider, s.account_id";

/// The starter queries. Every amount reads the normalized charges, so amounts
/// come out in the reporting currency.
pub open spec fn templates() -> Seq<TemplateFacts> {
    seq![
        TemplateFacts {
            category: SPEND_OVERVIEW@,
            title: "Monthly spend"@,
            description: "Total billed spend per billing month, in reporting currency."@,
            sql: MONTHLY_SPEND_SQL@,
        },
        TemplateFacts {
            category: SPEND_OVERVIEW@,
            title: "Spend by provider × month"@,
            description: "How each month's spend splits across providers, in reporting currency."@,
            sql: SPEND_BY_PROVIDER_BY_MONTH_SQL@,
        },
        TemplateFacts {
            category: SPEND_OVERVIEW@,
            title: "Daily spend, last 30 days"@,
            description: "Day-by-day spend over the last 30 days, in reporting currency."@,
            sql: DAILY_SPEND_LAST_30_DAYS_SQL@,
        },
        TemplateFacts {
            category: COMPOSITION@,
            title: "Top 20 services this month"@,
            description: "Which services cost the most this billing month, in reporting currency."@,
            sql: TOP_20_SERVICES_THIS_MONTH_SQL@,
        },
        TemplateFacts {
            category: COMPOSITION@,
            title: "Spend by business line"@,
            description: "How spend splits across business lines, in reporting currency; charges without the business_line tag count as Unallocated."@,
            sql: SPEND_BY_BUSINESS_LINE_SQL@,
        },
        TemplateFacts {
            category: COMPOSITION@,
            title: "Unallocated spend by service"@,
            description: "Which services carry no business_line tag, and what they cost, in reporting currency."@,
            sql: UNALLOCATED_SPEND_BY_SERVICE_SQL@,
        },
        TemplateFacts {
            category: FORECAST_AND_TRENDS@,
            title: "Month-end forecast"@,
            description: "This month's spend to date, the daily run rate since the first charge, and the projected month-end total, in reporting currency."@,
            sql: MONTH_END_FORECAST_SQL@,
        },
        TemplateFacts {
            category: FORECAST_AND_TRENDS@,
            title: "Month over month by service"@,
            description: "This month vs last month per service, in reporting currency, biggest movers first."@,
            sql: MONTH_OVER_MONTH_BY_SERVICE_SQL@,
        },
        TemplateFacts {
            category: COMPOSITION@,
            title: "Spend by region this month"@,
            description: "How this billing month's spend splits across regions, in reporting currency; charges with no region count as Other."@,
            sql: SPEND_BY_REGION_THIS_MONTH_SQL@,
        },
        TemplateFacts {
            category: COMPOSITION@,
            title: "Spend by service category this month"@,
            description: "How this billing month's spend splits across service categories, in reporting currency; charges with no category count as Other."@,
            sql: SPEND_BY_SERVICE_CATEGORY_THIS_MONTH_SQL@,
        },
        TemplateFacts {
            category: COMPOSITION@,
            title: "Top 20 resources this month"@,
            description: "The individual resources costing the most this billing month, in reporting currency."@,
            sql: TOP_20_RESOURCES_THIS_MONTH_SQL@,
        },
        TemplateFacts {
            category: COMPOSITION@,
            title: "Discount vs list price"@,
            description: "List-price spend vs actually billed spend per service this month, in reporting currency — how much discounts and credits shave off."@,
            sql: DISCOUNT_VS_LIST_PRICE_SQL@,
        },
        TemplateFacts {
            category: DATA_HEALTH@,
            title: "Recent ingest batches"@,
            description: "The 20 most recent ingest runs, with their channel, status, and row count."@,
            sql: RECENT_INGEST_BATCHES_SQL@,
        },
        TemplateFacts {
            category: DATA_HEALTH@,
            title: "Latest balance snapshots"@,
            description: "Each account's most recently observed balance, one row per currency at that instant."@,
            sql: LATEST_BALANCE_SNAPSHOTS_SQL@,
        },
    ]
}

/// The starter queries, in the order of the picker.
pub fn query_templates() -> (res: Vec<QueryTemplate>)
    ensures
        res@.map_values(|t: QueryTemplate| t@) == templates(),
{
    let mut res: Vec<QueryTemplate> = Vec::new();
    res.push(
        QueryTemplate {
            category: SPEND_OVERVIEW,
            title: "Monthly spend",
            description: "Total billed spend per billing month, in reporting currency.",
            sql: MONTHLY_SPEND_SQL,
        },
    );
    res.push(
        QueryTemplate {
            category: SPEND_OVERVIEW,
            title: "Spend by provider × month",
            description: "How each month's spend splits across providers, in reporting currency.",
            sql: SPEND_BY_PROVIDER_BY_MONTH_SQL,
        },
    );
    res.push(
        QueryTemplate {
            category: SPEND_OVERVIEW,
            title: "Daily spend, last 30 days",
            description: "Day-by-day spend over the last 30 days, in reporting currency.",
            sql: DAILY_SPEND_LAST_30_DAYS_SQL,
        },
    );
    res.push(
        QueryTemplate {
            category: COMPOSITION,
            title: "Top 20 services this month",
            description: "Which services cost the most this billing month, in reporting currency.",
            sql: TOP_20_SERVICES_THIS_MONTH_SQL,
        },
    );
    res.push(
        QueryTemplate {
            category: COMPOSITION,
            title: "Spend by business line",
            description: "How spend splits across business lines, in reporting currency; charges without the business_line tag count as Unallocated.",
            sql: SPEND_BY_BUSINESS_LINE_SQL,
        },
    );
    res.push(
        QueryTemplate {
            category: COMPOSITION,
            title: "Unallocated spend by service",
            description: "Which services carry no business_line tag, and what they cost, in reporting currency.",
            sql: UNALLOCATED_SPEND_BY_SERVICE_SQL,
        },
    );
    res.push(
        QueryTemplate {
            category: FORECAST_AND_TRENDS,
            title: "Month-end forecast",
            description: "This month's spend to date, the daily run rate since the first charge, and the projected month-end total, in reporting currency.",
            sql: MONTH_END_FORECAST_SQL,
        },
    );
    res.push(
        QueryTemplate {
            category: FORECAST_AND_TRENDS,
            title: "Month over month by service",
            description: "This month vs last month per service, in reporting currency, biggest movers first.",
            sql: MONTH_OVER_MONTH_BY_SERVICE_SQL,
        },
    );
    res.push(
        QueryTemplate {
            category: COMPOSITION,
            title: "Spend by region this month",
            description: "How this billing month's spend splits across regions, in reporting currency; charges with no region count as Other.",
            sql: SPEND_BY_REGION_THIS_MONTH_SQL,
        },
    );
    res.push(
        QueryTemplate {
            category: COMPOSITION,
            title: "Spend by service category this month",
            description: "How this billing month's spend splits across service categories, in reporting currency; charges with no category count as Other.",
            sql: SPEND_BY_SERVICE_CATEGORY_THIS_MONTH_SQL,
        },
    );
    res.push(
        QueryTemplate {
            category: COMPOSITION,
            title: "Top 20 resources this month",
            description: "The individual resources costing the most this billing month, in reporting currency.",
            sql: TOP_20_RESOURCES_THIS_MONTH_SQL,
        },
    );
    res.push(
        QueryTemplate {
            category: COMPOSITION,
            title: "Discount vs list price",
            description: "List-price spend vs actually billed spend per service this month, in reporting currency — how much discounts and credits shave off.",
            sql: DISCOUNT_VS_LIST_PRICE_SQL,
        },
    );
    res.push(
        QueryTemplate {
            category: DATA_HEALTH,
            title: "Recent ingest batches",
            description: "The 20 most recent ingest runs, with their channel, status, and row count.",
            sql: RECENT_INGEST_BATCHES_SQL,
        },
    );
    res.push(
        QueryTemplate {
            category: DATA_HEALTH,
            title: "Latest balance snapshots",
            description: "Each account's most recently observed balance, one row per currency at that instant.",
            sql: LATEST_BALANCE_SNAPSHOTS_SQL,
        },
    );
    proof {
        assert(res@.map_values(|t: QueryTemplate| t@) =~= templates());
    }
    res
}

/// Every starter query belongs to one of the four categories.
pub proof fn template_categories_are_known(i: int)
    requires
        0 <= i < templates().len(),
    ensures
        ({
            let category = templates()[i].category;
            ||| category == SPEND_OVERVIEW@
            ||| category == FORECAST_AND_TRENDS@
            ||| category == COMPOSITION@
            ||| category == DATA_HEALTH@
        }),
{
}

/// What an ad-hoc query came back with: column names, which columns are
/// numbers, the rows as text, and whether the row cap cut the tail off.
#[derive(Debug)]
pub struct QueryResultData {
    pub columns: Vec<String>,
    pub numeric: Vec<bool>,
    pub rows: Vec<Vec<Option<String>>>,
    pub truncated: bool,
    pub elapsed_ms: u64,
}

/// Run an ad-hoc query. The error comes back as text, which the page shows as it
/// is.
pub fn run_adhoc_query(sql: String) -> (res: Result<QueryResultData, String>)
    ensures
        res is Err,
        res->Err_0@
            == "The web demo has no SQL engine: the ledger is held in memory and read by the app, not queried"@,
{
    match run_adhoc(&sql) {
        Ok(result) => Ok(
            QueryResultData {
                columns: result.columns,
                numeric: result.numeric,
                rows: result.rows,
                truncated: result.truncated,
                elapsed_ms: result.elapsed_ms,
            },
        ),
        Err(e) => Err(e.message),
    }
}

} // verus!
