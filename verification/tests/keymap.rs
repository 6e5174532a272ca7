use qapi_spec::Enum;
use screenstub::keymap::{hex_opt_serde, hex_serde, BadTable, Keymap, Keymaps, QKeyCode};
use screenstub::route::RouteQmp;

const HEADER: &str = "Linux Name,Linux Keycode,OS-X Name,OS-X Keycode,AT set1 keycode,\
AT set2 keycode,AT set3 keycode,USB Keycodes,Win32 Name,Win32 Keycode,Xwin XT,Xfree86 KBD XT,\
X11 keysym name,X11 keysym,HTML code,XKB key name,QEMU QKeyCode,Sun KBD,Apple ADB";

const ESC: &str = "KEY_ESC,1,Escape,0x35,0x01,0x76,0x08,41,VK_ESCAPE,0x1b,0x01,0x01,XK_Escape,\
0xff1b,Escape,ESC,ESC,0x1d,0x35";

const ONE: &str = "KEY_1,2,ANSI_1,0x12,0x02,0x16,0x16,30,VK_1,0x31,0x02,0x02,XK_1,0x0031,Digit1,\
AE01,1,0x1e,0x12";

const HOME: &str = "KEY_HOME,5,Home,0x73,0xe047,0xe06c,0x6e,74,VK_HOME,0x24,0x47,0x59,XK_Home,\
0xff50,Home,HOME,Home,0x34,0x73";

const UNNAMED: &str = "KEY_ZENKAKUHANKAKU,4,,,0x76,0x5f,,148,,,,,,,Lang5,HZTG,,,";

fn table(rows: &[&str]) -> String {
    let mut text = String::from(HEADER);
    for row in rows {
        text.push('\n');
        text.push_str(row);
    }
    text
}

fn read(rows: &[&str]) -> Result<Keymaps, BadTable> {
    Keymaps::from_csv(table(rows).as_bytes())
}

fn place(name: &str) -> QKeyCode {
    QKeyCode { index: qapi_qmp::QKeyCode::from_name(name).unwrap().discriminant() }
}

#[test]
fn keymaps_csv() {
    let keymaps = read(&[ESC, ONE, HOME, UNNAMED]).unwrap();
    println!("{:#?}", keymaps);
    let keys = keymaps.try_qkeycode_keycodes().unwrap();
    println!("{:#?}", keys);
    let none = QKeyCode { index: 0 };
    assert_eq!(keys, vec![none, place("esc"), place("1"), none, none, place("home")]);
    assert_eq!(keymaps.qkeycode_keycodes(), keys);
}

#[test]
fn the_fields_of_a_key_are_read() {
    let keymaps = read(&[ESC]).unwrap().keymaps;
    let text = |s: &str| Some(s.to_string());
    assert_eq!(
        keymaps,
        vec![Keymap {
            linux_name: text("KEY_ESC"),
            linux_keycode: 1,
            mac_name: text("Escape"),
            mac_keycode: Some(0x35),
            at_set1_keycode: Some(1),
            at_set2_keycode: Some(0x76),
            at_set3_keycode: Some(8),
            usb_keycodes: Some(41),
            win32_name: text("VK_ESCAPE"),
            win32_keycode: Some(0x1b),
            xwin_xt: text("0x01"),
            xfree86_kbd_xt: text("0x01"),
            x11_keysym_name: text("XK_Escape"),
            x11_keysym: Some(0xff1b),
            html_code: text("Escape"),
            xkb_key_name: text("ESC"),
            qemu_qkeycode: text("ESC"),
            sub_kbd: Some(0x1d),
            apple_adb: Some(0x35),
        }]
    );
    let unnamed = read(&[UNNAMED]).unwrap().keymaps;
    assert_eq!(unnamed[0].mac_name, None);
    assert_eq!(unnamed[0].mac_keycode, None);
    assert_eq!(unnamed[0].qemu_qkeycode, None);
    assert_eq!(unnamed[0].usb_keycodes, Some(148));
}

#[test]
fn tables_that_cannot_be_read() {
    // a field short
    assert_eq!(read(&["KEY_ESC,1"]), Err(BadTable));
    // no number
    assert_eq!(read(&[&ESC.replacen(",1,", ",one,", 1)]), Err(BadTable));
    assert_eq!(read(&[&ESC.replacen("0x35", "0xg", 1)]), Err(BadTable));
    assert_eq!(read(&[&ESC.replacen(",1,", ",,", 1)]), Err(BadTable));
    // not text
    assert_eq!(Keymaps::from_csv(&[0xff, 0xfe, b'\n']).map(|k| k.keymaps.len()), Err(BadTable));
    // a column is missing, or there twice
    let fewer = "Linux Name,Linux Keycode\nKEY_ESC,1";
    assert_eq!(Keymaps::from_csv(fewer.as_bytes()), Err(BadTable));
    let twice = table(&[ESC]).replacen("Linux Name", "OS-X Name", 1);
    assert_eq!(Keymaps::from_csv(twice.as_bytes()), Err(BadTable));
    // only the header, or nothing
    assert_eq!(read(&[]), Ok(Keymaps { keymaps: vec![] }));
    assert_eq!(Keymaps::from_csv(b""), Ok(Keymaps { keymaps: vec![] }));
}

#[test]
fn a_text_column_may_be_missing() {
    let header = HEADER.replacen("Linux Name,", "", 1);
    let row = ESC.replacen("KEY_ESC,", "", 1);
    let keymaps = Keymaps::from_csv(format!("{}\n{}", header, row).as_bytes()).unwrap();
    assert_eq!(keymaps.keymaps[0].linux_name, None);
    assert_eq!(keymaps.keymaps[0].linux_keycode, 1);
}

#[test]
fn numbers_of_keys_for_the_machine() {
    let keymaps = read(&[ESC, ONE, HOME, UNNAMED]).unwrap();
    assert_eq!(keymaps.qnum_keycodes(), vec![0, 1, 2, 0, 0x76, 0xc7]);
    assert_eq!(keymaps.keymaps[2].qemu_qnum(), 0xc7);
    assert_eq!(Keymaps { keymaps: vec![] }.qnum_keycodes(), vec![0]);
    assert_eq!(keymaps.qnum_keycodes().len(), keymaps.try_qkeycode_keycodes().unwrap().len());
}

#[test]
fn a_route_has_its_numbers_from_a_table() {
    let route = RouteQmp::from_table(table(&[ESC, HOME]).as_bytes()).unwrap();
    assert_eq!(route.qkeycodes, vec![0, 1, 0, 0, 0, 0xc7]);
    assert!(!route.has_events());
    let short = table(&["KEY_ESC,1"]);
    assert!(matches!(RouteQmp::from_table(short.as_bytes()), Err(BadTable)));
}

#[test]
fn the_first_key_with_a_code_counts() {
    let again = ONE.replacen("KEY_1,2", "KEY_X,1", 1);
    let keymaps = read(&[ESC, &again]).unwrap();
    assert_eq!(keymaps.qnum_keycodes(), vec![0, 1]);
    assert_eq!(keymaps.qkeycode_keycodes()[1], place("esc"));
}

#[test]
fn unknown_names_of_keys() {
    let odd = ESC.replacen(",ESC,0x1d", ",escape-key,0x1d", 1);
    let keymaps = read(&[&odd]).unwrap();
    assert!(!keymaps.keymaps[0].knows_qkeycode());
    assert_eq!(keymaps.keymaps[0].try_qemu_qkeycode(), None);
    assert_eq!(keymaps.try_qkeycode_keycodes(), None);
    // a second key with the same code does not matter
    let shadowed = read(&[ESC, &odd]).unwrap();
    assert_eq!(shadowed.try_qkeycode_keycodes().unwrap()[1], place("esc"));
    let named = read(&[ESC, UNNAMED]).unwrap();
    assert!(named.keymaps[0].knows_qkeycode());
    assert_eq!(named.keymaps[0].qemu_qkeycode(), Some(place("esc")));
    assert_eq!(named.keymaps[1].try_qemu_qkeycode(), Some(None));
}

#[test]
fn numbers_of_the_table() {
    assert_eq!(hex_serde::deserialize("0x1f"), Some(0x1f));
    assert_eq!(hex_serde::deserialize("0xABcd"), Some(0xabcd));
    assert_eq!(hex_serde::deserialize("0x0031"), Some(0x31));
    assert_eq!(hex_serde::deserialize("31"), Some(31));
    assert_eq!(hex_serde::deserialize("+31"), Some(31));
    assert_eq!(hex_serde::deserialize("65535"), Some(65535));
    for bad in ["", "+", "0x", "0x12345", "0xx", "1f", "65536", "-1", "0X1f", "é"] {
        assert_eq!(hex_serde::deserialize(bad), None);
    }
    assert_eq!(hex_opt_serde::deserialize(""), Some(None));
    assert_eq!(hex_opt_serde::deserialize("0x7"), Some(Some(7)));
    assert_eq!(hex_opt_serde::deserialize("x"), None);
    assert_eq!(hex_serde::serialize(0), "0x0");
    assert_eq!(hex_serde::serialize(0xe047), "0xe047");
    assert_eq!(hex_opt_serde::serialize(None), "");
    assert_eq!(hex_opt_serde::serialize(Some(0x1f)), "0x1f");
}

#[test]
fn written_numbers_are_read() {
    for n in [0, 1, 9, 15, 16, 255, 256, 0xfff, 0x1000, 0xffff] {
        assert_eq!(hex_serde::deserialize(&hex_serde::serialize(n)), Some(n));
        assert_eq!(
            hex_opt_serde::deserialize(&hex_opt_serde::serialize(Some(n))),
            Some(Some(n))
        );
    }
    assert_eq!(hex_opt_serde::deserialize(&hex_opt_serde::serialize(None)), Some(None));
}
