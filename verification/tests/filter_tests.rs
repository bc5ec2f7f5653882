use can_tracer::filter::{FilterSpec, MASK_ALL};
use can_tracer::frame::CanFrame;

#[test]
fn default_filter_accepts_everything() {
    let rule = FilterSpec::default();
    assert_eq!(rule, FilterSpec { mask: 0, filter: 0 });
    assert!(rule.passes(&CanFrame::new(0, &[], false)));
    assert!(rule.passes(&CanFrame::new(0x7FF, &[1], false)));
    assert!(rule.passes_address(0xFFFF_FFFF));
}

#[test]
fn accept_all_is_the_default() {
    assert_eq!(FilterSpec::accept_all(), FilterSpec::default());
}

#[test]
fn passes_is_masked_address_equals_filter() {
    let rule = FilterSpec { mask: 0x700, filter: 0x200 };
    assert!(rule.passes(&CanFrame::new(0x201, &[], false)));
    assert!(rule.passes(&CanFrame::new(0x2FF, &[], false)));
    assert!(!rule.passes(&CanFrame::new(0x301, &[], false)));
    assert!(!rule.passes(&CanFrame::new(0x001, &[], false)));
    let addresses: [u32; 6] = [0, 1, 0x200, 0x201, 0x7FF, 0xFFFF_FFFF];
    for address in addresses {
        assert_eq!(rule.passes_address(address), (address & 0x700) == 0x200);
    }
}

#[test]
fn only_accepts_exactly_one_address() {
    let rule = FilterSpec::only(0x123);
    assert_eq!(rule, FilterSpec { mask: MASK_ALL, filter: 0x123 });
    assert!(rule.passes_address(0x123));
    assert!(!rule.passes_address(0x122));
    assert!(!rule.passes_address(0x0123_0123));
    assert!(!rule.passes_address(0));
}

#[test]
fn filter_bit_outside_mask_rejects_everything() {
    let rule = FilterSpec { mask: 0x0F, filter: 0x10 };
    let addresses: [u32; 5] = [0, 0x10, 0x1F, 0xFF, 0xFFFF_FFFF];
    for address in addresses {
        assert!(!rule.passes_address(address));
    }
}
