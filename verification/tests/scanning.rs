use camloc::scanning::{count_leading_ones, get_netmask_bits, IPV4AddressTemplate, TemplateMember};

fn fixed4(a: u8, b: u8, c: u8, d: u8) -> [TemplateMember<u8>; 4] {
    [TemplateMember::Fixed(a), TemplateMember::Fixed(b), TemplateMember::Fixed(c), TemplateMember::Fixed(d)]
}

#[test]
fn template_enumerates_in_order() {
    let t = IPV4AddressTemplate::new(
        [TemplateMember::Fixed(192), TemplateMember::Fixed(168), TemplateMember::Fixed(0), TemplateMember::Templated(1..=3)],
        TemplateMember::Templated(9111..=9112),
    );
    let mut it = t.into_iter();
    let mut all = vec![];
    while let Some(s) = it.next() {
        all.push(s);
    }
    assert_eq!(
        all,
        vec![
            "192.168.0.1:9111", "192.168.0.1:9112", "192.168.0.2:9111", "192.168.0.2:9112",
            "192.168.0.3:9111", "192.168.0.3:9112",
        ]
    );
    assert_eq!(it.next(), None);
    assert_eq!(it.next(), None);
}

#[test]
fn single_address_template() {
    let t = IPV4AddressTemplate::new(fixed4(127, 0, 0, 1), TemplateMember::Fixed(80));
    let mut it = t.into_iter();
    assert_eq!(it.next_address(), Some([127, 0, 0, 1, 80]));
    assert_eq!(it.next_address(), None);
}

#[test]
fn enumeration_counts_every_address_once() {
    let t = IPV4AddressTemplate::new(
        [TemplateMember::Templated(0..=1), TemplateMember::Fixed(5), TemplateMember::Templated(2..=4), TemplateMember::Templated(7..=8)],
        TemplateMember::Templated(1..=2),
    );
    assert!(t.is_well_formed());
    let mut it = t.into_iter();
    let mut seen = std::collections::HashSet::new();
    let mut prev: Option<[usize; 5]> = None;
    while let Some(a) = it.next_address() {
        assert!(seen.insert(a));
        if let Some(p) = prev {
            assert!(p < a);
        }
        prev = Some(a);
    }
    assert_eq!(seen.len(), 2 * 3 * 2 * 2);
}

#[test]
fn reversed_range_is_not_well_formed() {
    let t = IPV4AddressTemplate::new(fixed4(1, 2, 3, 4), TemplateMember::Templated(10..=5));
    assert!(!t.is_well_formed());
}

#[test]
fn members_collapse_single_values() {
    let t = IPV4AddressTemplate::new(
        [TemplateMember::Fixed(10), TemplateMember::Templated(3..=3), TemplateMember::Templated(0..=255), TemplateMember::Fixed(1)],
        TemplateMember::Fixed(443),
    );
    let m = t.members();
    assert!(matches!(m[0], TemplateMember::Fixed(10)));
    assert!(matches!(m[1], TemplateMember::Fixed(3)));
    match &m[2] {
        TemplateMember::Templated(r) => assert_eq!((*r.start(), *r.end()), (0, 255)),
        _ => panic!("expected a range"),
    }
    assert!(matches!(m[4], TemplateMember::Fixed(443)));
}

fn bounds(t: &IPV4AddressTemplate) -> Vec<(usize, usize)> {
    t.members()
        .iter()
        .map(|m| match m {
            TemplateMember::Fixed(v) => (*v, *v),
            TemplateMember::Templated(r) => (*r.start(), *r.end()),
        })
        .collect()
}

#[test]
fn netmask_24_template() {
    let t = IPV4AddressTemplate::from_netmask([192, 168, 1, 0], 24, TemplateMember::Fixed(0xdddd));
    assert_eq!(bounds(&t), vec![(192, 192), (168, 168), (1, 1), (0, 255), (0xdddd, 0xdddd)]);
}

#[test]
fn netmask_partial_octet_template() {
    let t = IPV4AddressTemplate::from_netmask([10, 0, 200, 0], 20, TemplateMember::Fixed(1));
    assert_eq!(bounds(&t), vec![(10, 10), (0, 0), (15, 15), (0, 255), (1, 1)]);
    let t = IPV4AddressTemplate::from_netmask([10, 0, 3, 0], 20, TemplateMember::Fixed(1));
    assert_eq!(bounds(&t)[2], (3, 15));
}

#[test]
fn netmask_edges() {
    let t = IPV4AddressTemplate::from_netmask([1, 2, 3, 4], 32, TemplateMember::Fixed(1));
    assert_eq!(bounds(&t)[..4], [(1, 1), (2, 2), (3, 3), (4, 4)]);
    let t = IPV4AddressTemplate::from_netmask([1, 2, 3, 4], 0, TemplateMember::Templated(5..=6));
    assert_eq!(bounds(&t), vec![(0, 255), (0, 255), (0, 255), (0, 255), (5, 6)]);
}

#[test]
fn leading_ones_counts() {
    assert_eq!(count_leading_ones(0), 0);
    assert_eq!(count_leading_ones(u32::MAX), 32);
    assert_eq!(count_leading_ones(0xffff_ff00), 24);
    assert_eq!(count_leading_ones(0x8000_0001), 1);
    for x in [0u32, 1, 0xf000_0000, 0xfffe_ffff, 12345678] {
        assert_eq!(count_leading_ones(x), x.leading_ones());
    }
}

#[test]
fn netmask_bits_in_machine_order() {
    let m = [255, 255, 255, 0];
    assert_eq!(get_netmask_bits(m), u32::from_ne_bytes(m).leading_ones());
    assert_eq!(get_netmask_bits([255, 255, 255, 255]), 32);
    if u32::from_ne_bytes([1, 0, 0, 0]) == 1 {
        assert_eq!(get_netmask_bits(m), 0);
        assert_eq!(get_netmask_bits([0, 255, 255, 255]), 24);
    } else {
        assert_eq!(get_netmask_bits(m), 24);
    }
}

#[test]
fn template_text_shows_ranges_in_brackets() {
    let t = IPV4AddressTemplate::new(
        [TemplateMember::Fixed(192), TemplateMember::Fixed(168), TemplateMember::Templated(0..=0), TemplateMember::Templated(1..=254)],
        TemplateMember::Fixed(1234),
    );
    assert_eq!(t.to_string(), "192.168.0.[1, 254]:1234");
    let n = IPV4AddressTemplate::from_netmask([10, 1, 2, 3], 16, TemplateMember::Templated(80..=81));
    assert_eq!(n.to_string(), "10.1.[0, 255].[0, 255]:[80, 81]");
}
