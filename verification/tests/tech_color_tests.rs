use domain_probe::config::parse_hex_color;
use domain_probe::probe::headers::HeaderMap;
use domain_probe::probe::tech::detect_technologies;

fn names(h: &HeaderMap) -> Vec<String> {
    detect_technologies(h).technologies.into_iter().map(|t| t.name).collect()
}

#[test]
fn adding_a_header_keeps_detected_technologies() {
    let mut h = HeaderMap::new();
    h.insert("server".to_string(), "nginx/1.25".to_string());
    h.insert("x-powered-by".to_string(), "Express".to_string());
    assert_eq!(names(&h), vec!["Express / Node.js".to_string(), "nginx".to_string()]);
    h.insert("cf-ray".to_string(), "8a1b".to_string());
    assert_eq!(names(&h), vec!["Cloudflare".to_string(), "Express / Node.js".to_string(), "nginx".to_string()]);
    h.insert("via".to_string(), "1.1 varnish".to_string());
    assert_eq!(
        names(&h),
        vec!["Cloudflare".to_string(), "Express / Node.js".to_string(), "nginx".to_string(), "Varnish".to_string()]
    );
}

#[test]
fn hex_colors_read_back() {
    for &(r, g, b) in &[(0u8, 0u8, 0u8), (255, 255, 255), (134, 239, 172), (1, 16, 171)] {
        assert_eq!(parse_hex_color(&format!("#{:02X}{:02x}{:02X}", r, g, b)), Some((r, g, b)));
        assert_eq!(parse_hex_color(&format!("{:02x}{:02x}{:02x}", r, g, b)), Some((r, g, b)));
    }
    assert_eq!(parse_hex_color("#12345"), None);
    assert_eq!(parse_hex_color("#1234567"), None);
    assert_eq!(parse_hex_color("#12345é"), None);
    assert_eq!(parse_hex_color("##a0b0c0"), Some((160, 176, 192)));
}
