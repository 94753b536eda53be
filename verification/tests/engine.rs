use fetch_space_bodies::{
    extract_vec3_from_line, parse_horizons_physical_single, parse_position, parse_property_number,
    parse_velocity, vec3_zero,
};

#[test]
fn test_extractors() {
    let extracted = extract_vec3_from_line("                   VX= 3.095693250734420E+01 VY= 3.176535947901246E+01 VZ= 5.221152230112693E-01     ").unwrap();
    let expected: [&str; 3] = [
        "3.095693250734420E+01",
        "3.176535947901246E+01",
        "5.221152230112693E-01",
    ];
    assert_eq!(extracted.0, expected[0]);
    assert_eq!(extracted.1, expected[1]);
    assert_eq!(extracted.2, expected[2]);
}

#[test]
fn test_parsers() {
    // -------------------------------------------
    // TEST parse_position
    // -------------------------------------------

    let pos_text = " X = 2.345471743170112E+08 Y =-1.467043494230836E+08 Z =-5.155677809885457E+06";
    let pos = parse_position(pos_text).unwrap();
    assert_eq!(pos.0.x.parse::<f64>().unwrap(), 2.345471743170112E+08f64);
    assert_eq!(pos.0.y.parse::<f64>().unwrap(), -1.467043494230836E+08f64);
    assert_eq!(pos.0.z.parse::<f64>().unwrap(), -5.155677809885457E+06f64);
    assert_eq!(pos.1, vec3_zero());

    // -------------------------------------------
    // TEST parse_velocity
    // -------------------------------------------

    let vel_text =
        "  VX= 3.095693250734420E+01 VY= 3.176535947901246E+01 VZ= 5.221152230112693E-01       ";
    let vel = parse_velocity(vel_text).unwrap();
    assert_eq!(vel.0.x.parse::<f64>().unwrap(), 3.095693250734420E+01);
    assert_eq!(vel.0.y.parse::<f64>().unwrap(), 3.176535947901246E+01);
    assert_eq!(vel.0.z.parse::<f64>().unwrap(), 5.221152230112693E-01);
    assert_eq!(vel.1, vec3_zero());

    // -------------------------------------------
    // TEST parse_horizons_physical_single
    // -------------------------------------------

    let input = r#"API VERSION: 1.2
    API SOURCE: NASA/JPL Horizons API

    *******************************************************************************
     Revised: April 12, 2021             Mercury                            199 / 1

     PHYSICAL DATA (updated 2024-Mar-04):
      Vol. Mean Radius (km) =  2439.4+-0.1    Density (g cm^-3)     = 5.427
      Mass x10^23 (kg)      =     3.302       Volume (x10^10 km^3)  = 6.085
      Sidereal rot. period  =    58.6463 d    Sid. rot. rate (rad/s)= 0.00000124001
      Mean solar day        =   175.9421 d    Core radius (km)      = ~1600
      Geometric Albedo      =     0.106       Surface emissivity    = 0.77+-0.06
      GM (km^3/s^2)         = 22031.86855     Equatorial radius, Re = 2440.53 km
      GM 1-sigma (km^3/s^2) =                 Mass ratio (Sun/plnt) = 6023682
      Mom. of Inertia       =     0.33        Equ. gravity  m/s^2   = 3.701
      Atmos. pressure (bar) = < 5x10^-15      Max. angular diam.    = 11.0"
      Mean Temperature (K)  = 440             Visual mag. V(1,0)    = -0.42
      Obliquity to orbit[1] =  2.11' +/- 0.1' Hill's sphere rad. Rp = 94.4
      Sidereal orb. per.    =  0.2408467 y    Mean Orbit vel.  km/s = 47.362
      Sidereal orb. per.    = 87.969257  d    Escape vel. km/s      =  4.435
                                     Perihelion  Aphelion    Mean
      Solar Constant (W/m^2)         14462       6278        9126
      Maximum Planetary IR (W/m^2)   12700       5500        8000
      Minimum Planetary IR (W/m^2)   6           6           6
    *******************************************************************************"#;

    let data = parse_horizons_physical_single(input).unwrap();
    let mass_value = data.0.0.mantissa.parse::<f64>().unwrap() * 10f64.powi(data.0.0.exp10);
    // scaling the mantissa rounds once more than the literal does, so
    // compare to the reported value within relative rounding error
    assert!(((mass_value - 3.302e23f64) / 3.302e23f64).abs() < 1e-12);
    assert_eq!(data.1.parse::<f64>().unwrap().floor(), 2439.4f64.floor());

    let input = r#"API VERSION: 1.2
    API SOURCE: NASA/JPL Horizons API

    *******************************************************************************
     Revised: April 12, 2021                Venus                           299 / 2

     PHYSICAL DATA (updated 2020-Oct-19):
      Vol. Mean Radius (km) =  6051.84+-0.01 Density (g/cm^3)      =  5.204
      Mass x10^23 (kg)      =    48.685      Volume (x10^10 km^3)  = 92.843
      Sidereal rot. period  =   243.018484 d Sid. Rot. Rate (rad/s)= -0.00000029924
      Mean solar day        =   116.7490 d   Equ. gravity  m/s^2   =  8.870
      Mom. of Inertia       =     0.33       Core radius (km)      = ~3200
      Geometric Albedo      =     0.65       Potential Love # k2   = ~0.25
      GM (km^3/s^2)         = 324858.592     Equatorial Radius, Re = 6051.893 km
      GM 1-sigma (km^3/s^2) =    +-0.006     Mass ratio (Sun/Venus)= 408523.72
      Atmos. pressure (bar) =  90            Max. angular diam.    =   60.2"
      Mean Temperature (K)  = 735            Visual mag. V(1,0)    =   -4.40
      Obliquity to orbit    = 177.3 deg      Hill's sphere rad.,Rp =  167.1
      Sidereal orb. per., y =   0.61519726   Orbit speed, km/s     =   35.021
      Sidereal orb. per., d = 224.70079922   Escape speed, km/s    =   10.361
                                     Perihelion  Aphelion    Mean
      Solar Constant (W/m^2)         2759         2614       2650
      Maximum Planetary IR (W/m^2)    153         153         153
      Minimum Planetary IR (W/m^2)    153         153         153
    *******************************************************************************"#;

    let data = parse_horizons_physical_single(input).unwrap();
    assert_eq!(data.1.parse::<f64>().unwrap(), 6051.84);
    let mass_value = data.0.0.mantissa.parse::<f64>().unwrap() * 10f64.powi(data.0.0.exp10);
    assert_eq!(mass_value, 48.685e23);

    // -------------------------------------------
    // TEST parse_property_number
    // -------------------------------------------
    assert_eq!(parse_property_number("1234").unwrap().parse::<f64>().unwrap(), 1234.0);
    assert_eq!(parse_property_number("1234e65").unwrap().parse::<f64>().unwrap(), 1234e65);
    assert_eq!(parse_property_number("-1234").unwrap().parse::<f64>().unwrap(), -1234.0);
    assert_eq!(parse_property_number("1234.1.2"), None);
}
