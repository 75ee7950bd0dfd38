use cp437_tools::ColourScheme;
use rand::{rng, Rng};

fn random_colours() -> [[u8; 3]; 16] {
    let mut colours = [[0u8; 3]; 16];
    for colour in colours.iter_mut() {
        *colour = [rng().random(), rng().random(), rng().random()];
    }
    colours
}

fn codes(colours: &[[u8; 3]; 16]) -> String {
    colours
        .iter()
        .map(|colour| format!("#{:02x}{:02x}{:02x}", colour[0], colour[1], colour[2]))
        .fold(String::new(), |acc, x| if acc.is_empty() { x } else { format!("{},{}", acc, x) })
}

#[test]
fn classic() -> Result<(), String> {
    assert_eq!(ColourScheme::get(&String::from("ClAsSiC"))?, ColourScheme::CLASSIC);
    for i in 0..16 {
        assert_eq!(ColourScheme::CLASSIC.colours()[i], ColourScheme::CLASSIC.colour(i as u8));
    }
    return Ok(());
}

#[test]
fn modern() -> Result<(), String> {
    assert_eq!(ColourScheme::get(&String::from("MoDeRn"))?, ColourScheme::MODERN);
    for i in 0..16 {
        assert_eq!(ColourScheme::MODERN.colours()[i], ColourScheme::MODERN.colour(i as u8));
    }
    return Ok(());
}

#[test]
fn dracula() -> Result<(), String> {
    assert_eq!(ColourScheme::get(&String::from("DrAcUlA"))?, ColourScheme::DRACULA);
    for i in 0..16 {
        assert_eq!(ColourScheme::DRACULA.colours()[i], ColourScheme::DRACULA.colour(i as u8));
    }
    return Ok(());
}

#[test]
fn custom() -> Result<(), String> {
    let colours = random_colours();
    let codes = codes(&colours);
    assert_eq!(ColourScheme::get(&format!("CuStOm({})", codes))?, ColourScheme::CUSTOM(colours));
    assert_eq!(ColourScheme::get(&format!("CuStOm({})", codes))?.name(), format!("CUSTOM({})", codes));
    assert_eq!(ColourScheme::CUSTOM(colours).colours(), colours);
    return Ok(());
}

#[test]
fn custom_unparseable() {
    let result = ColourScheme::get(&String::from("CuStOm()"));
    assert!(result.is_err());
    assert_eq!(result.unwrap_err(), "Unparseable colour scheme: CuStOm()");
}

#[test]
fn colour_invalid() {
    let result = ColourScheme::get(&String::from("x"));
    assert!(result.is_err());
    assert_eq!(result.unwrap_err(), "Unknown scheme: x");
}

#[test]
fn custom_sixteen_entries_in_order() -> Result<(), String> {
    let text = "CUSTOM(#000000,#AB0000,#00AB00,#AB5700,#0000AB,#AB00AB,#00ABAB,#ABABAB,\
                #575757,#FF5757,#57FF57,#FFFF57,#5757FF,#FF57FF,#57FFFF,#FFFFFF)";
    let scheme = ColourScheme::get(&String::from(text))?;
    assert_eq!(scheme, ColourScheme::CUSTOM(ColourScheme::CLASSIC.colours()));
    assert_eq!(scheme.colour(1), [0xAB, 0x00, 0x00]);
    assert_eq!(scheme.colour(15), [0xFF, 0xFF, 0xFF]);
    return Ok(());
}

#[test]
fn custom_fifteen_entries_fails() {
    let text = "CUSTOM(#000000,#AB0000,#00AB00,#AB5700,#0000AB,#AB00AB,#00ABAB,#ABABAB,\
                #575757,#FF5757,#57FF57,#FFFF57,#5757FF,#FF57FF,#57FFFF)";
    let result = ColourScheme::get(&String::from(text));
    assert_eq!(result.unwrap_err(), format!("Unparseable colour scheme: {}", text));
}

#[test]
fn custom_bad_digit_fails() {
    let text = "custom(#00000g,#AB0000,#00AB00,#AB5700,#0000AB,#AB00AB,#00ABAB,#ABABAB,\
                #575757,#FF5757,#57FF57,#FFFF57,#5757FF,#FF57FF,#57FFFF,#FFFFFF)";
    assert!(ColourScheme::get(&String::from(text)).is_err());
}

#[test]
fn preset_names_and_colours() -> Result<(), String> {
    for scheme in [
        ColourScheme::CLASSIC,
        ColourScheme::MODERN,
        ColourScheme::CATPPUCCIN,
        ColourScheme::DRACULA,
        ColourScheme::ROSEPINE,
    ] {
        assert_eq!(ColourScheme::get(&scheme.name())?, scheme);
    }
    assert_eq!(ColourScheme::CLASSIC.colour(3), [0xAB, 0x57, 0x00]);
    assert_eq!(ColourScheme::ROSEPINE.colour(15), [0xE0, 0xDE, 0xF4]);
    assert_eq!(ColourScheme::get(&String::from("catppuccin"))?.colour(0), [0x23, 0x26, 0x34]);
    return Ok(());
}
