use encoding::{EncoderTrap, Encoding};
use script_utils::adsl::{
    account_from_captures, account_from_page, after_stats, credit_confirmed, exit_after_credit, read_account_page,
    wants_credit, AdslNext, EXIT_DISABLED, EXIT_ENABLED, EXIT_ERROR,
};

const PAGE: &str = "<table><tr><td class='left'>Аккаунт</td>\n  <td class='right'><b>Включен</b></td></tr>\
<tr><td>Осталось трафика на сумму</td> <td class='right'><b>1\u{a0}234.50 руб</b></td></tr>\
<tr><td>Тариф</td><td>осталось <b>-3 дн.</b></td></tr>\
<tr><td>тариф</td>\t<td class='right'><b>15 руб</b></td></tr>\
<tr><td>кредит</td><td class='right'><b>40%</b></td></tr></table>";

#[test]
fn account_page_fields() {
    let info = account_from_page(PAGE);
    assert!(info.enabled);
    assert_eq!(info.account.as_deref(), Some("1234.50"));
    assert_eq!(info.days, -3);
    assert_eq!(info.price, 15);
    assert_eq!(info.credit, Some(40));
}

#[test]
fn account_page_missing_fields_default() {
    let info = account_from_page("<html>nothing here</html>");
    assert!(!info.enabled);
    assert_eq!(info.account, None);
    assert_eq!(info.days, 0);
    assert_eq!(info.price, 0);
    assert_eq!(info.credit, None);
}

#[test]
fn account_page_from_windows_1251_bytes() {
    let bytes = encoding::all::WINDOWS_1251
        .encode("<td>x>Аккаунт</td> <td class='right'><b>Отключен<", EncoderTrap::Strict)
        .unwrap();
    let info = read_account_page(&bytes);
    assert!(!info.enabled);
    let bytes = encoding::all::WINDOWS_1251
        .encode(">Аккаунт</td><td class='right'><b>Включен<", EncoderTrap::Strict)
        .unwrap();
    assert!(read_account_page(&bytes).enabled);
}

#[test]
fn credit_reply_and_arguments() {
    assert!(credit_confirmed("{ stat: 'Включен', x: 1 }"));
    assert!(!credit_confirmed("{ stat: 'Отключен' }"));
    assert!(wants_credit(&["adslbystat".to_string(), "credit".to_string()]));
    assert!(!wants_credit(&["adslbystat".to_string(), "--credit".to_string()]));
}

#[test]
fn exit_decisions() {
    assert_eq!(after_stats(true, true), AdslNext::Exit(EXIT_ENABLED));
    assert_eq!(after_stats(false, true), AdslNext::RequestCredit);
    assert_eq!(after_stats(false, false), AdslNext::Exit(EXIT_DISABLED));
    assert_eq!(exit_after_credit(Some(true)), EXIT_ENABLED);
    assert_eq!(exit_after_credit(Some(false)), EXIT_DISABLED);
    assert_eq!(exit_after_credit(None), EXIT_ERROR);
    assert_eq!((EXIT_ENABLED, EXIT_DISABLED, EXIT_ERROR), (0, 1, 2));
}

fn caps(groups: &[Option<&str>]) -> Option<Vec<Option<String>>> {
    Some(groups.iter().map(|g| g.map(|x| x.to_string())).collect())
}

#[test]
fn account_from_pattern_results() {
    let info = account_from_captures(
        false,
        &caps(&[Some("whole"), Some("\u{a0}12\u{a0}345\u{a0}.5\u{a0}")]),
        &caps(&[Some("whole"), Some("x7")]),
        &None,
        &caps(&[Some("whole")]),
    );
    assert!(!info.enabled);
    assert_eq!(info.account.as_deref(), Some("12345.5"));
    assert_eq!(info.days, 0);
    assert_eq!(info.price, 0);
    assert_eq!(info.credit, None);
}

#[test]
fn balance_uses_no_break_space_separator() {
    let page = "Осталось трафика на сумму</td><td class='right'><b>1 234.50 руб";
    assert_eq!(account_from_page(page).account.as_deref(), Some("1"));
    let bytes = encoding::all::WINDOWS_1251
        .encode(
            "Осталось трафика на сумму</td><td class='right'><b>-1\u{a0}234.50 руб",
            EncoderTrap::Strict,
        )
        .unwrap();
    assert!(bytes.contains(&0xA0));
    assert_eq!(read_account_page(&bytes).account.as_deref(), Some("-1234.50"));
    let kept = account_from_captures(false, &caps(&[Some("m"), Some("1 2")]), &None, &None, &None);
    assert_eq!(kept.account.as_deref(), Some("1 2"));
}
