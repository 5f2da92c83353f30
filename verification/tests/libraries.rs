use gouda::font_library::FontLibrary;
use gouda::shader_lib::ShaderLibrary;

#[test]
fn shader_library_registers_by_name() {
    let mut lib: ShaderLibrary<u32> = ShaderLibrary::new();
    assert_eq!(lib.get("basic"), None);
    lib.add("basic", 1);
    lib.add("quad", 2);
    assert_eq!(lib.get("basic"), Some(&1));
    assert_eq!(lib.get("quad"), Some(&2));
    lib.add("basic", 3);
    assert_eq!(lib.get("basic"), Some(&3));
    assert_eq!(lib.get("quad"), Some(&2));
    assert_eq!(lib.get("bas"), None);
    assert_eq!(lib.get("basic "), None);
}

#[test]
fn font_library_registers_by_name() {
    let mut fonts: FontLibrary<&str> = FontLibrary::new();
    fonts.add_font("segoe", "segoe.fnt");
    fonts.add_font("arial", "arial.fnt");
    assert_eq!(fonts.get("arial"), Some(&"arial.fnt"));
    fonts.add_font("arial", "arial2.fnt");
    assert_eq!(fonts.get("arial"), Some(&"arial2.fnt"));
    assert_eq!(fonts.get("segoe"), Some(&"segoe.fnt"));
    assert_eq!(fonts.get("calibri"), None);
    assert_eq!(fonts.get("ärial"), None);
}
