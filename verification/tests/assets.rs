use dsh_pet::assets::{PaletteEntry, Sprite, SpritePack};

fn row(s: &str) -> String {
    s.to_string()
}

fn grid(fill: char) -> Vec<String> {
    (0..SpritePack::H).map(|_| std::iter::repeat(fill).take(SpritePack::W).collect()).collect()
}

fn pack(sprites: Vec<Sprite>) -> SpritePack {
    SpritePack { canvas: None, palette: vec![], sprites, source_derivation: None }
}

#[test]
fn parse_color_rgb() {
    assert_eq!(SpritePack::parse_color("#546AF5"), Some([0x54, 0x6A, 0xF5, 255]));
}

#[test]
fn parse_color_rgba_transparent() {
    assert_eq!(SpritePack::parse_color("#00000000"), Some([0, 0, 0, 0]));
}

#[test]
fn parse_color_invalid() {
    assert_eq!(SpritePack::parse_color("not-a-color"), None);
    assert_eq!(SpritePack::parse_color("#123"), None);
}

#[test]
fn parse_color_rejects_signed_pairs() {
    assert_eq!(SpritePack::parse_color("#+a+b+c"), None);
    assert_eq!(SpritePack::parse_color("#+1+2+3"), None);
    assert_eq!(SpritePack::parse_color("#ff+0ff"), None);
    assert_eq!(SpritePack::parse_color("#ff-0ff"), None);
    assert_eq!(SpritePack::parse_color("#8f8F8f80"), Some([0x8f, 0x8f, 0x8f, 0x80]));
}

#[test]
fn parse_color_non_ascii_that_does_not_cut_a_character() {
    // "ééé" is six bytes, each pair a whole character: not hexadecimal.
    assert_eq!(SpritePack::parse_color("#ééé"), None);
}

#[test]
fn validate_accepts_full_grids() {
    let p = pack(vec![Sprite { name: "idle".into(), rows: grid('.') }]);
    assert_eq!(p.validate(), Ok(()));
}

#[test]
fn validate_reports_row_count_and_row_width() {
    let p = pack(vec![Sprite { name: "idle".into(), rows: vec![row("..")] }]);
    assert_eq!(p.validate(), Err("sprite 'idle' 有 1 行，期望 58".to_string()));
    let mut rows = grid('.');
    rows[3] = row("...");
    let q = pack(vec![Sprite { name: "done".into(), rows }]);
    assert_eq!(q.validate(), Err("sprite 'done' 第 3 行有 3 字符，期望 80".to_string()));
}

#[test]
fn find_spout_bounding_box() {
    let sprite = vec![row("....."), row("..R.R"), row(".R...")];
    let sp = SpritePack::find_spout(&sprite).expect("spout");
    assert_eq!((sp.x0, sp.x1, sp.y0), (1, 4, 1));
    assert!(SpritePack::find_spout(&[row("...")]).is_none());
}

#[test]
fn sprite_for_falls_back_to_default() {
    let p = pack(vec![
        Sprite { name: "default".into(), rows: vec![row("d")] },
        Sprite { name: "idle".into(), rows: vec![row("i")] },
    ]);
    assert_eq!(p.sprite_for("idle").unwrap()[0], "i");
    assert_eq!(p.sprite_for("starting").unwrap()[0], "d");
    assert!(pack(vec![]).sprite_for("idle").is_none());
}

#[test]
fn merge_custom_overrides_palette_and_replaces_sprites() {
    let mut base = SpritePack {
        canvas: None,
        palette: vec![
            PaletteEntry { key: "b".into(), color: "#000000".into() },
            PaletteEntry { key: "R".into(), color: "#8FB0FF".into() },
        ],
        sprites: vec![Sprite { name: "default".into(), rows: vec![row("b")] }],
        source_derivation: None,
    };
    let custom = SpritePack {
        canvas: None,
        palette: vec![
            PaletteEntry { key: "R".into(), color: "#FF0000".into() },
            PaletteEntry { key: "g".into(), color: "#00FF00".into() },
        ],
        sprites: vec![],
        source_derivation: None,
    };
    base.merge_custom(custom);
    assert_eq!(base.palette.len(), 3);
    assert_eq!(base.palette[1].color, "#FF0000");
    assert_eq!(base.palette[2].key, "g");
    assert_eq!(base.sprites.len(), 1);
    let custom2 = pack(vec![Sprite { name: "idle".into(), rows: vec![row("x")] }]);
    base.merge_custom(custom2);
    assert_eq!(base.sprites.len(), 1);
    assert_eq!(base.sprites[0].name, "idle");
}
