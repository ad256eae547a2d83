use script_utils::dyndns::{chosen_address, home_record, plan_home_update, DnsPlan, DnsPlanError, DnsRecordInfo};

fn rec(is_a: bool, sub: &str) -> DnsRecordInfo {
    DnsRecordInfo { is_a, subdomain: sub.to_string() }
}

#[test]
fn finds_first_home_a_record() {
    let records = vec![rec(false, "home"), rec(true, "www"), rec(true, "home"), rec(true, "home")];
    assert_eq!(home_record(&records), Some(2));
    assert_eq!(home_record(&records[..2]), None);
}

#[test]
fn plans() {
    let records = vec![rec(true, "www"), rec(true, "home")];
    match plan_home_update(&records, Some("10.0.0.7".to_string())) {
        Ok(DnsPlan::EditRecord { index, content }) => {
            assert_eq!(index, 1);
            assert_eq!(content, "10.0.0.7");
        }
        other => panic!("unexpected plan {:?}", other),
    }
    assert_eq!(plan_home_update(&records, None).err(), Some(DnsPlanError::NoAddress));
    match plan_home_update(&records[..1], None) {
        Ok(DnsPlan::AddRecord { subdomain, content }) => {
            assert_eq!(subdomain, "home");
            assert_eq!(content, "127.0.0.1");
        }
        other => panic!("unexpected plan {:?}", other),
    }
}

#[test]
fn address_choice() {
    assert_eq!(chosen_address(Some("1.2.3.4".into()), Some("5.6.7.8".into())).as_deref(), Some("1.2.3.4"));
    assert_eq!(chosen_address(None, Some("5.6.7.8".into())).as_deref(), Some("5.6.7.8"));
    assert_eq!(chosen_address(None, None), None);
}
