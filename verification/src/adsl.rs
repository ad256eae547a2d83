//! The ADSL.by account checker: what the statistics page says about the
//! account, and which exit status the checker ends with.
use vstd::prelude::*;
use crate::text::has_substring;
use crate::text::replace_all;
use crate::text::parsed_i32;
use crate::text::contains;
use crate::text::replace;
use crate::text::parse_i32;
use crate::text::same_text;
use crate::matching::group_of;
use crate::matching::caps_view;
use crate::matching::capture_group;
use crate::outside::regex_is_match;
use crate::outside::regex_is_match_of;
use crate::outside::regex_captures;
use crate::outside::regex_captures_of;
use crate::outside::decode_windows1251;
use crate::outside::windows1251_of;

verus! {

/// Exit status: the account is enabled (or credit was just enabled).
pub const EXIT_ENABLED: i32 = 0;

/// Exit status: the account is disabled.
pub const EXIT_DISABLED: i32 = 1;

/// Exit status: something failed.
pub const EXIT_ERROR: i32 = 2;

/// The account as the statistics page shows it. `account` is the balance
/// as written on the page with its no-break spaces (U+00A0, the
/// thousands separator) removed; reading it as a number is left to the
/// caller. A missing day count or price reads as 0.
#[derive(Debug, Clone)]
pub struct AccountInfo {
    pub enabled: bool,
    pub account: Option<String>,
    pub days: i32,
    pub price: i32,
    pub credit: Option<i32>,
}

/// The value of an `AccountInfo`.
pub struct AccountView {
    pub enabled: bool,
    pub account: Option<Seq<char>>,
    pub days: i32,
    pub price: i32,
    pub credit: Option<i32>,
}

impl View for AccountInfo {
    type V = AccountView;

    open spec fn view(&self) -> AccountView {
        AccountView {
            enabled: self.enabled,
            account: match self.account {
                Some(a) => Some(a@),
                None => None,
            },
            days: self.days,
            price: self.price,
            credit: self.credit,
        }
    }
}

/// The page says the account is enabled.
pub open spec fn state_pattern() -> Seq<char> {
    r">Аккаунт</td>\s*<td class='right'><b>Включен<"@
}

/// The balance left.
pub open spec fn account_pattern() -> Seq<char> {
    "Осталось трафика на сумму</td>\\s*<td class='right'><b>(-?[0-9.\u{a0}]+)"@
}

/// The days left.
pub open spec fn days_pattern() -> Seq<char> {
    r"осталось <b>(-?\d+) д"@
}

/// The price per MiB.
pub open spec fn price_pattern() -> Seq<char> {
    r"тариф</td>\s*<td class='right'><b>(\d+) "@
}

/// The allowed credit, in percent.
pub open spec fn credit_pattern() -> Seq<char> {
    r"кредит</td>\s*<td class='right'><b>(\d+)%"@
}

/// The integer in group 1 of a match, if it parses.
pub open spec fn number_in(caps: Option<Seq<Option<Seq<char>>>>) -> Option<i32> {
    match group_of(caps, 1) {
        Some(v) => parsed_i32(v),
        None => None,
    }
}

/// An optional number with 0 in place of a missing one.
pub open spec fn or_zero(n: Option<i32>) -> i32 {
    match n {
        Some(v) => v,
        None => 0,
    }
}

/// The account from what the page's patterns found: whether the state
/// pattern matched, and the first matches of the balance, days, price and
/// credit patterns. The balance is group 1 with its no-break spaces
/// (U+00A0) removed; days,
/// price and credit are group 1 read as integers, days and price being 0
/// when absent or unreadable.
pub open spec fn account_view_of(
    enabled: bool,
    account: Option<Seq<Option<Seq<char>>>>,
    days: Option<Seq<Option<Seq<char>>>>,
    price: Option<Seq<Option<Seq<char>>>>,
    credit: Option<Seq<Option<Seq<char>>>>,
) -> AccountView {
    AccountView {
        enabled,
        account: match group_of(account, 1) {
            Some(v) => Some(replace_all(v, "\u{a0}"@, seq![])),
            None => None,
        },
        days: or_zero(number_in(days)),
        price: or_zero(number_in(price)),
        credit: number_in(credit),
    }
}

/// What the statistics page `page` says about the account.
pub open spec fn account_info_of(page: Seq<char>) -> AccountView {
    account_view_of(
        regex_is_match_of(state_pattern(), page),
        regex_captures_of(account_pattern(), page),
        regex_captures_of(days_pattern(), page),
        regex_captures_of(price_pattern(), page),
        regex_captures_of(credit_pattern(), page),
    )
}

fn number_from(caps: &Option<Vec<Option<String>>>) -> (res: Option<i32>)
    ensures
        res == number_in(caps_view(*caps)),
{
    match capture_group(caps, 1) {
        Some(v) => parse_i32(v.as_str()),
        None => None,
    }
}

/// Builds the account from the results of the page's patterns (see
/// `account_view_of`).
pub fn account_from_captures(
    enabled: bool,
    account: &Option<Vec<Option<String>>>,
    days: &Option<Vec<Option<String>>>,
    price: &Option<Vec<Option<String>>>,
    credit: &Option<Vec<Option<String>>>,
) -> (res: AccountInfo)
    ensures
        res@ == account_view_of(
            enabled,
            caps_view(*account),
            caps_view(*days),
            caps_view(*price),
            caps_view(*credit),
        ),
{
    let balance = match capture_group(account, 1) {
        Some(v) => {
            proof {
                reveal_strlit("\u{a0}");
                reveal_strlit("");
                assert(""@ =~= Seq::<char>::empty());
            }
            Some(replace(v.as_str(), "\u{a0}", ""))
        },
        None => None,
    };
    let d = match number_from(days) {
        Some(d) => d,
        None => 0,
    };
    let p = match number_from(price) {
        Some(p) => p,
        None => 0,
    };
    let c = number_from(credit);
    AccountInfo { enabled, account: balance, days: d, price: p, credit: c }
}

/// Reads the account state out of the (decoded) statistics page.
pub fn account_from_page(page: &str) -> (res: AccountInfo)
    ensures
        res@ == account_info_of(page@),
        res@.enabled == regex_is_match_of(r">Аккаунт</td>\s*<td class='right'><b>Включен<"@, page@),
        res@.account == (match group_of(regex_captures_of("Осталось трафика на сумму</td>\\s*<td class='right'><b>(-?[0-9.\u{a0}]+)"@, page@), 1) {
            Some(v) => Some(replace_all(v, "\u{a0}"@, seq![])),
            None => None,
        }),
        res@.days == or_zero(number_in(regex_captures_of(r"осталось <b>(-?\d+) д"@, page@))),
        res@.price == or_zero(number_in(regex_captures_of(r"тариф</td>\s*<td class='right'><b>(\d+) "@, page@))),
        res@.credit == number_in(regex_captures_of(r"кредит</td>\s*<td class='right'><b>(\d+)%"@, page@)),
{
    let enabled = regex_is_match(r">Аккаунт</td>\s*<td class='right'><b>Включен<", page);
    let account = regex_captures("Осталось трафика на сумму</td>\\s*<td class='right'><b>(-?[0-9.\u{a0}]+)", page);
    let days = regex_captures(r"осталось <b>(-?\d+) д", page);
    let price = regex_captures(r"тариф</td>\s*<td class='right'><b>(\d+) ", page);
    let credit = regex_captures(r"кредит</td>\s*<td class='right'><b>(\d+)%", page);
    account_from_captures(enabled, &account, &days, &price, &credit)
}

/// The account read from a page: enabled exactly when the state pattern
/// matches the page (whatever the other rows say); the balance from the
/// balance row alone; days, price and credit each from their own row.
pub proof fn law_account_fields_from_own_rows(page: Seq<char>)
    ensures
        account_info_of(page).enabled == regex_is_match_of(r">Аккаунт</td>\s*<td class='right'><b>Включен<"@, page),
        account_info_of(page).account == (match group_of(regex_captures_of("Осталось трафика на сумму</td>\\s*<td class='right'><b>(-?[0-9.\u{a0}]+)"@, page), 1) {
            Some(v) => Some(replace_all(v, "\u{a0}"@, seq![])),
            None => None,
        }),
        account_info_of(page).days == or_zero(number_in(regex_captures_of(r"осталось <b>(-?\d+) д"@, page))),
        account_info_of(page).price == or_zero(number_in(regex_captures_of(r"тариф</td>\s*<td class='right'><b>(\d+) "@, page))),
        account_info_of(page).credit == number_in(regex_captures_of(r"кредит</td>\s*<td class='right'><b>(\d+)%"@, page)),
{
}

/// Reads the account state out of the raw statistics page, which the
/// server sends in Windows-1251.
pub fn read_account_page(bytes: &[u8]) -> (res: AccountInfo)
    ensures
        res@ == account_info_of(windows1251_of(bytes@)),
        res@.enabled == regex_is_match_of(r">Аккаунт</td>\s*<td class='right'><b>Включен<"@, windows1251_of(bytes@)),
{
    let page = decode_windows1251(bytes);
    account_from_page(page.as_str())
}

/// The reply to the credit request says credit is now on.
pub open spec fn credit_confirmed_in(body: Seq<char>) -> bool {
    has_substring(body, "stat: 'Включен'"@)
}

/// Whether the reply to the credit request says credit is now on.
pub fn credit_confirmed(body: &str) -> (res: bool)
    ensures
        res == credit_confirmed_in(body@),
{
    contains(body, "stat: 'Включен'")
}

/// Whether the command line asks for credit: some argument is `credit`.
pub fn wants_credit(args: &[String]) -> (res: bool)
    ensures
        res == exists|i: int| 0 <= i < args@.len() && #[trigger] args@[i]@ == "credit"@,
{
    let mut i: usize = 0;
    while i < args.len()
        invariant
            i <= args@.len(),
            forall|j: int| 0 <= j < i ==> #[trigger] args@[j]@ != "credit"@,
        decreases args.len() - i,
    {
        if same_text(args[i].as_str(), "credit") {
            return true;
        }
        i += 1;
    }
    false
}

/// What the checker does once it has read the page.
#[derive(Debug, Clone, Copy, PartialEq, Eq, Structural)]
pub enum AdslNext {
    /// Stop with this exit status.
    Exit(i32),
    /// Ask the server to enable credit, then decide by `exit_after_credit`.
    RequestCredit,
}

/// After reading the page: an enabled account ends with `EXIT_ENABLED`; a
/// disabled one asks for credit when the command line wants it, and
/// otherwise ends with `EXIT_DISABLED`.
pub fn after_stats(enabled: bool, credit_requested: bool) -> (res: AdslNext)
    ensures
        res == (if enabled {
            AdslNext::Exit(EXIT_ENABLED)
        } else if credit_requested {
            AdslNext::RequestCredit
        } else {
            AdslNext::Exit(EXIT_DISABLED)
        }),
{
    if enabled {
        AdslNext::Exit(EXIT_ENABLED)
    } else if credit_requested {
        AdslNext::RequestCredit
    } else {
        AdslNext::Exit(EXIT_DISABLED)
    }
}

/// The exit status after the credit request: `Some(confirmed)` when the
/// request went through, `None` when it failed.
pub fn exit_after_credit(result: Option<bool>) -> (res: i32)
    ensures
        res == match result {
            Some(true) => EXIT_ENABLED,
            Some(false) => EXIT_DISABLED,
            None => EXIT_ERROR,
        },
{
    match result {
        Some(true) => EXIT_ENABLED,
        Some(false) => EXIT_DISABLED,
        None => EXIT_ERROR,
    }
}

} // verus!
