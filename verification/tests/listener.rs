use async_runtime::net::tcp::listener::{BindError, BindSearch};

fn search(attempts: Vec<Result<&'static str, u32>>) -> Result<&'static str, BindError<u32>> {
    let mut s = BindSearch::new();
    for a in attempts {
        if let Some(l) = s.record(a) {
            return Ok(l);
        }
    }
    Err(s.finish())
}

#[test]
fn bind_takes_first_success() {
    assert_eq!(search(vec![Err(1), Ok("second"), Ok("third")]), Ok("second"));
    assert_eq!(search(vec![Ok("first"), Err(2)]), Ok("first"));
}

#[test]
fn bind_reports_last_error_when_all_fail() {
    assert_eq!(search(vec![Err(1), Err(2), Err(3)]), Err(BindError::LastError(3)));
}

#[test]
fn bind_reports_no_address_when_none_resolved() {
    assert_eq!(search(vec![]), Err(BindError::NoAddress));
    let s: BindSearch<u32> = BindSearch::new();
    assert_eq!(s.finish(), BindError::NoAddress);
}

#[test]
fn bind_record_keeps_error_then_success_wins() {
    let mut s: BindSearch<u32> = BindSearch::new();
    assert_eq!(s.record::<u8>(Err(9)), None);
    assert_eq!(s.record::<u8>(Ok(4)), Some(4));
    assert_eq!(s.finish(), BindError::LastError(9));
}
