use vdcp_bridge::adam::{
    check_for_config_errors, create_post, dec_bytes, flip_form, lookup_ip, lookup_mapping,
    make_commands, sort_bytes, url_for, AdamCommand, Ipv4, RequestType,
};

fn ip(a: u8, b: u8, c: u8, d: u8) -> Ipv4 {
    Ipv4 { octets: [a, b, c, d] }
}

fn test_tables() -> (Vec<(u8, AdamCommand)>, Vec<(u8, Ipv4)>) {
    let mapping = vec![
        (0u8, AdamCommand::new(0, 0)),
        (1u8, AdamCommand::new(0, 1)),
        (2u8, AdamCommand::new(1, 0)),
    ];
    let ips = vec![(0u8, ip(10, 0, 0, 1)), (1u8, ip(10, 0, 0, 2))];
    (mapping, ips)
}

#[test]
fn one_window_two_modules_two_posts() {
    // Ports 0 and 2 fire inside one coalescing window: exactly one POST per
    // module, each setting that module's pin 0.
    let (mapping, ips) = test_tables();
    let requests = make_commands(vec![0, 2], &mapping, &ips);
    assert_eq!(requests.len(), 2);

    let (kind, url, form) = &requests[0];
    assert_eq!(*kind, RequestType::Pulse);
    assert_eq!(url, b"http://10.0.0.1/digitaloutput/all/value");
    assert_eq!(form.len(), 1);
    assert_eq!(form[0].0, b"DO0");
    assert_eq!(form[0].1, b"1");

    let (kind, url, form) = &requests[1];
    assert_eq!(*kind, RequestType::Pulse);
    assert_eq!(url, b"http://10.0.0.2/digitaloutput/all/value");
    assert_eq!(form.len(), 1);
    assert_eq!(form[0].0, b"DO0");
    assert_eq!(form[0].1, b"1");

    // The off half that follows each post is the complement form.
    let off = flip_form(&requests[0].2);
    assert_eq!(off[0].0, b"DO0");
    assert_eq!(off[0].1, b"0");
}

#[test]
fn one_module_gets_one_request_for_many_ports() {
    let (mapping, ips) = test_tables();
    let requests = make_commands(vec![1, 0], &mapping, &ips);
    assert_eq!(requests.len(), 1);
    let (_, url, form) = &requests[0];
    assert_eq!(url, b"http://10.0.0.1/digitaloutput/all/value");
    // Ports sorted, so the pins come out in port order.
    assert_eq!(form.len(), 2);
    assert_eq!(form[0].0, b"DO0");
    assert_eq!(form[1].0, b"DO1");
}

#[test]
fn unmapped_ports_and_unlisted_modules_are_dropped() {
    let (mapping, ips) = test_tables();
    // Port 9 has no mapping at all.
    let requests = make_commands(vec![9], &mapping, &ips);
    assert_eq!(requests.len(), 0);
    // Module 1 loses its address: only module 0's request survives.
    let short_ips = vec![(0u8, ip(10, 0, 0, 1))];
    let requests = make_commands(vec![0, 2], &mapping, &short_ips);
    assert_eq!(requests.len(), 1);
    assert_eq!(requests[0].1, b"http://10.0.0.1/digitaloutput/all/value");
}

#[test]
fn flip_form_complements_binary_values_only() {
    let form = vec![
        (b"DO0".to_vec(), b"1".to_vec()),
        (b"DO1".to_vec(), b"0".to_vec()),
        (b"DO2".to_vec(), b"7".to_vec()),
    ];
    let off = flip_form(&form);
    assert_eq!(off[0], (b"DO0".to_vec(), b"0".to_vec()));
    assert_eq!(off[1], (b"DO1".to_vec(), b"1".to_vec()));
    // A non-binary value cannot be flipped; it is resent as it stands.
    assert_eq!(off[2], (b"DO2".to_vec(), b"7".to_vec()));
}

#[test]
fn urls_render_all_octet_widths() {
    assert_eq!(
        url_for(&ip(192, 168, 10, 5)),
        b"http://192.168.10.5/digitaloutput/all/value"
    );
    assert_eq!(
        url_for(&ip(0, 9, 99, 255)),
        b"http://0.9.99.255/digitaloutput/all/value"
    );
}

#[test]
fn decimal_rendering_matches() {
    assert_eq!(dec_bytes(0), b"0");
    assert_eq!(dec_bytes(7), b"7");
    assert_eq!(dec_bytes(10), b"10");
    assert_eq!(dec_bytes(99), b"99");
    assert_eq!(dec_bytes(100), b"100");
    assert_eq!(dec_bytes(255), b"255");
}

#[test]
fn create_post_names_every_pin() {
    let (kind, url, form) = create_post(&ip(10, 0, 0, 1), &vec![0, 10]);
    assert_eq!(kind, RequestType::Pulse);
    assert_eq!(url, b"http://10.0.0.1/digitaloutput/all/value");
    assert_eq!(form[0].0, b"DO0");
    assert_eq!(form[1].0, b"DO10");
    assert_eq!(form[0].1, b"1");
    assert_eq!(form[1].1, b"1");
}

#[test]
fn config_errors_name_the_unlisted_modules() {
    let mapping = vec![
        (5u8, AdamCommand::new(9, 0)),
        (6u8, AdamCommand::new(1, 2)),
        (7u8, AdamCommand::new(9, 1)),
    ];
    let ips = vec![(1u8, ip(10, 0, 0, 1))];
    assert_eq!(check_for_config_errors(&mapping, &ips), vec![9, 9]);
    let (mapping, ips) = {
        let m = vec![(0u8, AdamCommand::new(0, 0))];
        let i = vec![(0u8, ip(10, 0, 0, 1))];
        (m, i)
    };
    assert_eq!(check_for_config_errors(&mapping, &ips), Vec::<u8>::new());
}

#[test]
fn lookups_find_first_entries_only() {
    let (mapping, ips) = test_tables();
    assert_eq!(lookup_mapping(&mapping, 2), Some(AdamCommand::new(1, 0)));
    assert_eq!(lookup_mapping(&mapping, 9), None);
    assert_eq!(lookup_ip(&ips, 1), Some(ip(10, 0, 0, 2)));
    assert_eq!(lookup_ip(&ips, 9), None);
}

#[test]
fn sorting_orders_the_batch() {
    assert_eq!(sort_bytes(&vec![3, 1, 2, 1]), vec![1, 1, 2, 3]);
    assert_eq!(sort_bytes(&vec![]), Vec::<u8>::new());
}

#[test]
fn an_empty_batch_makes_no_requests() {
    let (mapping, ips) = test_tables();
    assert_eq!(make_commands(vec![], &mapping, &ips).len(), 0);
}

#[test]
fn duplicate_mapping_keys_resolve_to_the_first_entry() {
    let mapping = vec![
        (0u8, AdamCommand::new(1, 4)),
        (0u8, AdamCommand::new(2, 9)),
    ];
    assert_eq!(lookup_mapping(&mapping, 0), Some(AdamCommand::new(1, 4)));
}
