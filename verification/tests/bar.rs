use miyori::label::bar::{
    bar_content, brightness, foreground_for_background, parse_color, ANOMALY_BACKGROUND,
    FALLBACK_COLOR, HOST_BACKGROUND,
};
use miyori::label::font::{draw_glyph, draw_text, fit_text, glyph, glyph_or_replacement, text_width_px};
use miyori::label::font_data::{GLYPH_HEIGHT, GLYPH_WIDTH, ROW_BYTES};
use miyori::label::strip::Strip;
#[test]
fn anomaly_states_do_not_look_like_host() {
    for strip in [
        Strip::Orphan { id: "spike".into() },
        Strip::Unknown { id: "ghost".into() },
        Strip::Unverified {
            claimed: "spike".into(),
        },
        Strip::FocusUnknown,
    ] {
        let content = bar_content(&strip);
        assert_ne!(
            content.background, HOST_BACKGROUND,
            "аномалия {strip:?} окрашена как хост"
        );
        assert_eq!(content.background, ANOMALY_BACKGROUND);
    }
}

#[test]
fn host_is_neutral_dark_with_light_text() {
    let content = bar_content(&Strip::Host);
    assert_eq!(content.text, "хост");
    assert_eq!(content.background, HOST_BACKGROUND);
    assert_eq!(content.foreground, 0xffff_ffff);
}

#[test]
fn space_uses_its_own_color_and_names_id_and_level() {
    let strip = Strip::Space {
        id: "spike".into(),
        color: "#ff0000".into(),
        level: "strict".into(),
    };
    let content = bar_content(&strip);
    assert_eq!(content.text, "спейс spike: strict");
    assert_eq!(content.background, 0xffff_0000);
}

#[test]
fn unparseable_color_gets_visible_fallback_but_keeps_text() {
    let strip = Strip::Space {
        id: "spike".into(),
        color: "not-a-color".into(),
        level: "strict".into(),
    };
    let content = bar_content(&strip);
    assert_eq!(content.background, FALLBACK_COLOR);
    assert_eq!(content.text, "спейс spike: strict");
}

#[test]
fn dark_background_gets_light_text() {
    let strip = Strip::Space {
        id: "spike".into(),
        color: "#101010".into(),
        level: "strict".into(),
    };
    assert_eq!(bar_content(&strip).foreground, 0xffff_ffff);
}

#[test]
fn light_background_gets_dark_text() {
    let strip = Strip::Space {
        id: "spike".into(),
        color: "#eeeeee".into(),
        level: "strict".into(),
    };
    assert_eq!(bar_content(&strip).foreground, 0xff00_0000);
}

#[test]
fn orphan_names_the_window_not_a_space() {
    let content = bar_content(&Strip::Orphan { id: "spike".into() });
    assert_eq!(content.text, "окно без спейса: spike");
}

#[test]
fn unknown_space_is_named_as_unknown_to_daemon() {
    let content = bar_content(&Strip::Unknown { id: "ghost".into() });
    assert_eq!(content.text, "спейс ghost демону неизвестен");
}

#[test]
fn unverified_claim_does_not_assert_a_space() {
    let content = bar_content(&Strip::Unverified {
        claimed: "banking".into(),
    });
    assert_eq!(content.text, "окно заявляет спейс banking, проверить нечем");
}

#[test]
fn every_bar_text_is_renderable_by_the_font() {
    let strips = [
        Strip::Host,
        Strip::Space {
            id: "web".into(),
            color: "#1971c2".into(),
            level: "standard".into(),
        },
        Strip::Space {
            id: "spike-reduced".into(),
            color: "#9c36b5".into(),
            level: "reduced".into(),
        },
        Strip::Orphan { id: "web".into() },
        Strip::Unknown { id: "web".into() },
        Strip::Unverified {
            claimed: "web".into(),
        },
        Strip::FocusUnknown,
    ];
    for strip in strips {
        let text = bar_content(&strip).text;
        for ch in text.chars() {
            assert!(
                glyph(ch).is_some(),
                "в шрифте нет {ch:?} (U+{:04X}) из строки {text:?}",
                ch as u32
            );
        }
    }
}

#[test]
fn focus_unknown_does_not_claim_host_or_a_space() {
    let content = bar_content(&Strip::FocusUnknown);
    assert_eq!(content.text, "фокус ещё не определён");
}


#[test]
fn glyph_a_found() {
    assert!(glyph('A').is_some());
}

#[test]
fn glyph_zhe_found() {
    assert!(glyph('Ж').is_some());
}

#[test]
fn unknown_char_uses_replacement_without_changing_width() {
    assert!(glyph('\u{1F642}').is_none());
    assert_eq!(text_width_px("A"), text_width_px("\u{1F642}"));
}

#[test]
fn fit_text_keeps_short_text_as_is() {
    assert_eq!(fit_text("спейс spike", 1000), "спейс spike");
}

#[test]
fn fit_text_marks_the_cut() {
    let long = "a".repeat(100);
    let cut = fit_text(&long, GLYPH_WIDTH * 10);
    assert_eq!(cut.chars().count(), 10);
    assert!(cut.ends_with("..."), "{cut}");
}

#[test]
fn fit_text_on_a_hopeless_width_does_not_panic() {
    assert_eq!(
        fit_text("abcdef", GLYPH_WIDTH * 2)
            .chars()
            .count(),
        2
    );
    assert_eq!(fit_text("abcdef", 0), "");
}

#[test]
fn draw_text_out_of_bounds_does_not_panic() {
    let width = 20;
    let height = 20;
    let mut buf = vec![0u32; width * height];
    draw_text(
        &mut buf,
        width,
        height,
        width - 2,
        height - 2,
        "AAAA",
        0xffff_ffff,
    );
}

#[test]
fn drawn_glyph_lights_expected_rectangle_and_nothing_outside() {
    let width = GLYPH_WIDTH + 4;
    let height = GLYPH_HEIGHT + 4;
    let mut buf = vec![0u32; width * height];
    draw_text(&mut buf, width, height, 2, 2, "A", 0xffff_ffff);

    let bitmap = glyph('A').unwrap();
    for row in 0..GLYPH_HEIGHT {
        for col in 0..GLYPH_WIDTH {
            let byte = bitmap[row * ROW_BYTES + col / 8];
            let bit = (byte >> (7 - col % 8)) & 1;
            let pixel = buf[(2 + row) * width + (2 + col)];
            let expected = if bit == 1 { 0xffff_ffff } else { 0 };
            assert_eq!(pixel, expected, "row {row} col {col}");
        }
    }
    assert_eq!(buf[0], 0);
    assert_eq!(buf[width * height - 1], 0);
}

#[test]
fn text_beyond_buffer_width_is_clipped_not_wrapped() {
    let width = 10;
    let height = GLYPH_HEIGHT;
    let mut buf = vec![0u32; width * height];
    draw_text(&mut buf, width, height, width, 0, "A", 0xffff_ffff);
    assert!(buf.iter().all(|&p| p == 0));
}

#[test]
fn overlong_text_is_clipped_without_panicking() {
    let width = GLYPH_WIDTH;
    let height = GLYPH_HEIGHT;
    let mut buf = vec![0u32; width * height];
    draw_text(&mut buf, width, height, 0, 0, "AAAAAA", 0xffff_ffff);
    assert!(buf.iter().any(|&p| p != 0));
}

#[test]
fn a_colour_is_a_hash_sign_and_six_places() {
    assert_eq!(parse_color("#ff0000"), Some(0xffff_0000));
    assert_eq!(parse_color("#AbCdEf"), Some(0xffab_cdef));
    assert_eq!(parse_color("#+12345"), Some(0xff01_2345));
    assert_eq!(parse_color("#12345"), None);
    assert_eq!(parse_color("#1234567"), None);
    assert_eq!(parse_color("ff0000"), None);
    assert_eq!(parse_color("#ff00zz"), None);
    assert_eq!(parse_color("#++1234"), None);
    assert_eq!(parse_color("#яяя"), None);
}

#[test]
fn brightness_weighs_the_channels() {
    assert_eq!(brightness(0xffff_ffff), 255);
    assert_eq!(brightness(0xff00_0000), 0);
    assert_eq!(brightness(0xffff_0000), 76);
    assert_eq!(brightness(0xff00_ff00), 149);
    assert_eq!(brightness(0xff00_00ff), 29);
    assert_eq!(foreground_for_background(0xff80_8080), 0xffff_ffff);
    assert_eq!(foreground_for_background(0xff81_8181), 0xff00_0000);
}

#[test]
fn a_character_without_a_letter_is_drawn_as_a_question_mark() {
    assert_eq!(glyph_or_replacement('\u{1F642}'), glyph('?').unwrap());
    assert_eq!(glyph_or_replacement('A'), glyph('A').unwrap());
    assert_ne!(glyph('A').unwrap(), glyph('B').unwrap());
}

#[test]
fn a_letter_is_drawn_over_what_was_there() {
    let width = GLYPH_WIDTH * 2;
    let height = GLYPH_HEIGHT;
    let mut one = vec![7u32; width * height];
    let mut two = vec![7u32; width * height];
    draw_glyph(&mut one, width, height, 0, 0, &glyph('I').unwrap(), 9);
    draw_glyph(&mut one, width, height, GLYPH_WIDTH, 0, &glyph('V').unwrap(), 9);
    draw_text(&mut two, width, height, 0, 0, "IV", 9);
    assert_eq!(one, two);
    assert!(one.iter().all(|p| *p == 7 || *p == 9));
    assert!(one.iter().any(|p| *p == 9));
}

#[test]
fn drawing_far_outside_leaves_the_picture_alone() {
    let mut buf = vec![0u32; 100];
    draw_glyph(&mut buf, 10, 10, usize::MAX, 0, &glyph('A').unwrap(), 1);
    draw_glyph(&mut buf, 10, 10, 0, usize::MAX, &glyph('A').unwrap(), 1);
    assert!(buf.iter().all(|p| *p == 0));
}

#[test]
fn a_fitted_text_is_never_wider_than_its_room() {
    for px in 0..200 {
        let fitted = fit_text("спейс spike: strict", px);
        assert!(text_width_px(&fitted) <= px);
    }
    assert_eq!(fit_text("abcdef", GLYPH_WIDTH * 5), "ab...");
    assert_eq!(fit_text("abcdef", GLYPH_WIDTH * 3), "abc");
    assert_eq!(fit_text("abcdef", GLYPH_WIDTH * 6), "abcdef");
}
