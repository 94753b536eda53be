use fetch_space_bodies::{
    parse_body_motion, parse_body_search, parse_horizons_physical_single, parse_property_number,
    parse_vec3_line,
};

#[test]
fn numeric_token_cases() {
    assert_eq!(parse_property_number("1234").as_deref(), Some("1234"));
    assert_eq!(parse_property_number("1234e65").as_deref(), Some("1234e65"));
    assert_eq!(parse_property_number("-1234").as_deref(), Some("-1234"));
    assert_eq!(parse_property_number("2439.4+-0.1").as_deref(), Some("2439.4"));
    assert_eq!(parse_property_number(".5").unwrap().parse::<f64>().unwrap(), 0.5);
    assert_eq!(parse_property_number("12e-3").unwrap().parse::<f64>().unwrap(), 0.012);
    assert_eq!(parse_property_number("58.6463 d").as_deref(), Some("58.6463"));
}

#[test]
fn numeric_token_rejects() {
    // a second decimal point invalidates the whole token
    assert_eq!(parse_property_number("1234.1.2"), None);
    // no digit was ever consumed
    assert_eq!(parse_property_number(""), None);
    assert_eq!(parse_property_number("-"), None);
    assert_eq!(parse_property_number("abc"), None);
    assert_eq!(parse_property_number("~1600"), None);
    // an exponent marker with no digits after it
    assert_eq!(parse_property_number("12e"), None);
    assert_eq!(parse_property_number("12e-"), None);
}

#[test]
fn vector_line_whitespace_and_signs() {
    let v = parse_vec3_line("  X =-1   Y  =  2.5e3 Z =   -4.25E-2   ").unwrap();
    assert_eq!(v.x.parse::<f64>().unwrap(), -1.0);
    assert_eq!(v.y.parse::<f64>().unwrap(), 2500.0);
    assert_eq!(v.z.parse::<f64>().unwrap(), -0.0425);
}

#[test]
fn motion_report_roundtrip() {
    let report = "noise before the data\n$$SOE\nheader line\n X = 1.0 Y = 2.0 Z = 3.0\n VX= 4.0 VY= 5.0 VZ= 6.0\n$$EOE\n";
    let (pos, vel) = parse_body_motion(report).unwrap();
    assert_eq!(pos.0.x, "1.0");
    assert_eq!(pos.0.y, "2.0");
    assert_eq!(pos.0.z, "3.0");
    assert_eq!(vel.0.x, "4.0");
    assert_eq!(vel.0.y, "5.0");
    assert_eq!(vel.0.z, "6.0");
    assert_eq!(pos.1.x, "0");
    assert_eq!(vel.1.x, "0");
}

#[test]
fn motion_report_missing_lines() {
    let marker = "$$SOE";
    let header = "header line";
    let posl = " X = 1.0 Y = 2.0 Z = 3.0";
    let vell = " VX= 4.0 VY= 5.0 VZ= 6.0";
    let endl = "$$EOE";
    // dropping any one of the four leading lines loses the record
    let without_marker = format!("{}\n{}\n{}\n{}\n", header, posl, vell, endl);
    assert!(parse_body_motion(&without_marker).is_none());
    let without_header = format!("{}\n{}\n{}\n{}\n", marker, posl, vell, endl);
    assert!(parse_body_motion(&without_header).is_none());
    let without_pos = format!("{}\n{}\n{}\n{}\n", marker, header, vell, endl);
    assert!(parse_body_motion(&without_pos).is_none());
    let without_vel = format!("{}\n{}\n{}\n{}\n", marker, header, posl, endl);
    assert!(parse_body_motion(&without_vel).is_none());
    // swapping position and velocity lines loses it too
    let swapped = format!("{}\n{}\n{}\n{}\n{}\n", marker, header, vell, posl, endl);
    assert!(parse_body_motion(&swapped).is_none());
}

#[test]
fn motion_end_marker_first() {
    let report = "$$EOE\n$$SOE\nheader\n X = 1.0 Y = 2.0 Z = 3.0\n VX= 4.0 VY= 5.0 VZ= 6.0\n";
    assert!(parse_body_motion(report).is_none());
}

#[test]
fn properties_mercury_pair() {
    let report = "  Mass x10^23 (kg) = 3.302\n  Vol. Mean Radius (km) = 2439.4+-0.1\n";
    let (mass, radius_km) = parse_horizons_physical_single(report).unwrap();
    assert_eq!(mass.0.mantissa, "3.302");
    assert_eq!(mass.0.exp10, 23);
    let mass_value = mass.0.mantissa.parse::<f64>().unwrap() * 10f64.powi(mass.0.exp10);
    assert!(((mass_value - 3.302e23f64) / 3.302e23f64).abs() < 1e-12);
    assert_eq!(radius_km, "2439.4");
}

#[test]
fn properties_missing_radius_is_atomic() {
    // mass present, but only an equatorial radius: all-or-nothing recovery
    let report = "Mass x10^24 (kg) = 5.97219+-0.0006\nEqu. radius (km) = 6378.137\n";
    assert!(parse_horizons_physical_single(report).is_none());
}

#[test]
fn properties_exponent_hard_failure() {
    // a 10^ marker whose exponent run is empty fails the whole extraction
    let report = "Vol. Mean Radius (km) = 2439.4\nMass x10^ (kg) = 3.302\n";
    assert!(parse_horizons_physical_single(report).is_none());
    // likewise a run that is not a single signed integer
    let report = "Vol. Mean Radius (km) = 2439.4\nMass 10^2-3 (kg) = 3.302\n";
    assert!(parse_horizons_physical_single(report).is_none());
}

#[test]
fn properties_earth_layout_unsupported() {
    // Earth's dump puts mass in the second column of a shared line, where
    // only the first pair of each line is a key; it must fail, not guess.
    let input = r#"API VERSION: 1.2
    API SOURCE: NASA/JPL Horizons API

    *******************************************************************************
     Revised: April 12, 2021                 Earth                              399

     GEOPHYSICAL PROPERTIES (revised May 9, 2022):
      Vol. Mean Radius (km)    = 6371.01+-0.02   Mass x10^24 (kg)= 5.97219+-0.0006
      Equ. radius, km          = 6378.137        Mass layers:
      Polar axis, km           = 6356.752          Atmos         = 5.1   x 10^18 kg
      Flattening               = 1/298.257223563   oceans        = 1.4   x 10^21 kg
      Density, g/cm^3          = 5.51              crust         = 2.6   x 10^22 kg
      GM, km^3/s^2             = 398600.435436   Inner core rad  = 1215 km
      Rot. Rate (rad/s)        = 0.00007292115   Surface area:
      Mean sidereal day, hr    = 23.9344695944     land          = 1.48 x 10^8 km
      Mean solar day 2000.0, s = 86400.002         sea           = 3.62 x 10^8 km
    *******************************************************************************"#;
    assert!(parse_horizons_physical_single(input).is_none());
}

#[test]
fn search_overflow_marker() {
    let header = "ID#      Name                               Designation  IAU/aliases/other";
    let full_name = "N".repeat(37); // fills the column to its last character
    let row1 = format!("{}{}{}{}", "        7", full_name, "1898 DQ     ", "alias text           ");
    let row2 = format!("{}{}{}{}", "      499", format!("{:<37}", "Mars"), "            ", "                     ");
    let text = format!("preamble line\n{}\nseparator\n{}\n{}\n\nignored trailer", header, row1, row2);
    let records = parse_body_search(&text).unwrap();
    assert_eq!(records.len(), 2);
    assert_eq!(records[0].id, 7);
    assert_eq!(records[0].name, format!("{}...", full_name));
    assert_eq!(records[0].designation, "1898 DQ");
    assert_eq!(records[0].other, "alias text");
    assert_eq!(records[1].id, 499);
    assert_eq!(records[1].name, "Mars");
    assert_eq!(records[1].designation, "");
    assert_eq!(records[1].other, "");
}

#[test]
fn search_skips_bad_id_and_stops_at_blank() {
    let header = "ID#      Name                               Designation  IAU/aliases/other";
    let good = format!("{}{}{}{}", "       -4", format!("{:<37}", "Mars Barycenter"), "            ", "                     ");
    let bad = format!("{}{}", "   oops  ", format!("{:<37}", "Not a row"));
    let after_blank = format!("{}{}", "      301", format!("{:<37}", "Moon"));
    let text = format!("{}\nseparator\n{}\n{}\n\n{}\n", header, bad, good, after_blank);
    let records = parse_body_search(&text).unwrap();
    assert_eq!(records.len(), 1);
    assert_eq!(records[0].id, -4);
    assert_eq!(records[0].name, "Mars Barycenter");
    // without any header the scan finds nothing
    let no_header = "      499  Mars\n";
    assert_eq!(parse_body_search(no_header).unwrap().len(), 0);
}

#[test]
fn reparse_is_idempotent() {
    let report = "noise\n$$SOE\nheader\n X = 1.0 Y = 2.0 Z = 3.0\n VX= 4.0 VY= 5.0 VZ= 6.0\n$$EOE\n";
    assert_eq!(parse_body_motion(report), parse_body_motion(report));
    let props = "  Mass x10^23 (kg) = 3.302\n  Vol. Mean Radius (km) = 2439.4+-0.1\n";
    assert_eq!(parse_horizons_physical_single(props), parse_horizons_physical_single(props));
    let header = "ID#      Name                               Designation  IAU/aliases/other";
    let search = format!("{}\nsep\n{}{}\n", header, "      499", format!("{:<37}", "Mars"));
    assert_eq!(parse_body_search(&search), parse_body_search(&search));
}
