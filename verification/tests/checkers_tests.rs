use oklch_picker::checkers::{checker_column, CheckerColumn, DARK, LIGHT};

#[test]
fn shades_are_the_two_grays() {
    assert_eq!(LIGHT, 128);
    assert_eq!(DARK, 32);
}

#[test]
fn first_column_is_light_over_dark() {
    assert_eq!(checker_column(0), CheckerColumn { top: 128, bottom: 32 });
}

#[test]
fn columns_alternate() {
    assert_eq!(checker_column(1), CheckerColumn { top: 32, bottom: 128 });
    assert_eq!(checker_column(2), CheckerColumn { top: 128, bottom: 32 });
    assert_eq!(checker_column(3), CheckerColumn { top: 32, bottom: 128 });
    for column in 0..100u32 {
        let here = checker_column(column);
        let next = checker_column(column + 1);
        assert_ne!(here.top, here.bottom);
        assert_eq!(next.top, here.bottom);
        assert_eq!(next.bottom, here.top);
    }
    assert_eq!(checker_column(u32::MAX), CheckerColumn { top: 32, bottom: 128 });
}
