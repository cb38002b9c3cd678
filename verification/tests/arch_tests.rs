//! The architecture naming syntax and the board lookup.

use farcri::arch::{Arch, ArchParseError, ArmMVersion, Xlen};
use farcri::targets::{try_parse_target, NucleoF401re};

/// Every named base architecture.
fn named_archs() -> Vec<(&'static str, Arch)> {
    let rv = |xlen: Xlen, e: bool| Arch::Riscv {
        xlen,
        e,
        m: false,
        a: false,
        c: false,
        f: false,
        d: false,
    };
    vec![
        ("cortex_a9", Arch::Armv7A),
        ("cortex_m0", Arch::ArmM { version: ArmMVersion::Armv6M, fpu: false, dsp: false }),
        ("cortex_m3", Arch::ArmM { version: ArmMVersion::Armv7M, fpu: false, dsp: false }),
        ("cortex_m4", Arch::ArmM { version: ArmMVersion::Armv7M, fpu: false, dsp: true }),
        ("cortex_m4f", Arch::ArmM { version: ArmMVersion::Armv7M, fpu: true, dsp: true }),
        ("cortex_m23", Arch::ArmM { version: ArmMVersion::Armv8MBaseline, fpu: false, dsp: false }),
        ("cortex_m33", Arch::ArmM { version: ArmMVersion::Armv8MMainline, fpu: false, dsp: false }),
        ("rv32i", rv(Xlen::_32, false)),
        ("rv64i", rv(Xlen::_64, false)),
        ("rv32e", rv(Xlen::_32, true)),
    ]
}

#[test]
fn arch_round_trip() {
    for (_, arch) in named_archs() {
        let arch_str = arch.to_string();
        let arch2: Arch = arch_str.parse().unwrap();
        assert_eq!(arch, arch2);
    }
}

#[test]
fn arch_names_match_their_bases() {
    for (name, arch) in named_archs() {
        assert_eq!(arch.to_string(), name);
        assert_eq!(name.parse::<Arch>().unwrap(), arch);
    }
}

#[test]
fn arch_feature_toggles_parse() {
    let parsed: Arch = "rv32i+m+a-c+d".parse().unwrap();
    assert_eq!(
        parsed,
        Arch::Riscv { xlen: Xlen::_32, e: false, m: true, a: true, c: false, f: false, d: true }
    );
    let parsed: Arch = "cortex_m3+fpu".parse().unwrap();
    assert_eq!(parsed, Arch::ArmM { version: ArmMVersion::Armv7M, fpu: true, dsp: false });
    assert_eq!(parsed.to_string(), "cortex_m3+fpu");
}

#[test]
fn arch_rejects_unknown_names() {
    assert_eq!(
        "pentium+fpu".parse::<Arch>(),
        Err(ArchParseError::UnknownBase("pentium".to_string()))
    );
    assert_eq!(
        "cortex_m3+turbo".parse::<Arch>(),
        Err(ArchParseError::UnknownFeature("turbo".to_string()))
    );
    assert_eq!(
        "cortex_a9+fpu".parse::<Arch>(),
        Err(ArchParseError::UnknownFeature("fpu".to_string()))
    );
}

#[test]
fn with_feature_by_name_toggles_known_features() {
    let m3 = Arch::ArmM { version: ArmMVersion::Armv7M, fpu: false, dsp: false };
    assert_eq!(
        m3.with_feature_by_name("fpu", true),
        Some(Arch::ArmM { version: ArmMVersion::Armv7M, fpu: true, dsp: false })
    );
    assert_eq!(m3.with_feature_by_name("turbo", true), None);
    assert_eq!(Arch::Armv7A.with_feature_by_name("fpu", true), None);
}

#[test]
fn target_lookup_knows_the_board() {
    let board = try_parse_target("nucleo_f401re").unwrap();
    assert_eq!(
        board.target_arch(),
        Arch::ArmM { version: ArmMVersion::Armv7M, fpu: true, dsp: true }
    );
    assert_eq!(board.cargo_features(), vec!["target_nucleo_f401re"]);
    assert_eq!(try_parse_target("unknown_board"), Err("no such target"));
    let _ = NucleoF401re;
}

#[test]
fn build_opt_maps_exact_triples() {
    let m4f: Arch = "cortex_m4f".parse().unwrap();
    let bo = m4f.build_opt().unwrap();
    assert_eq!(bo.target_triple, "thumbv7em-none-eabihf");
    assert_eq!(bo.target_features, "");

    let m0: Arch = "cortex_m0".parse().unwrap();
    assert_eq!(m0.build_opt().unwrap().target_triple, "thumbv6m-none-eabi");

    let rv32imc: Arch = "rv32i+m+c".parse().unwrap();
    assert_eq!(rv32imc.build_opt().unwrap().target_triple, "riscv32imc-unknown-none-elf");

    let rv64gc: Arch = "rv64i+m+a+c+f+d".parse().unwrap();
    assert_eq!(rv64gc.build_opt().unwrap().target_triple, "riscv64gc-unknown-none-elf");
}

#[test]
fn build_opt_rejects_unbuildable_arm_combinations() {
    let m0_fpu: Arch = "cortex_m0+fpu".parse().unwrap();
    assert!(m0_fpu.build_opt().is_none());
    let m3_fpu: Arch = "cortex_m3+fpu".parse().unwrap();
    assert!(m3_fpu.build_opt().is_none());
}

#[test]
fn build_opt_derives_features_for_generic_riscv() {
    let rv32e: Arch = "rv32e".parse().unwrap();
    let bo = rv32e.build_opt().unwrap();
    assert_eq!(bo.target_triple, "riscv32imac-unknown-none-elf");
    assert_eq!(bo.target_features, "+e,-m,-a,-c");

    let odd: Arch = "rv64i+m+a+c+f".parse().unwrap();
    let bo = odd.build_opt().unwrap();
    assert_eq!(bo.target_triple, "riscv64imac-unknown-none-elf");
    assert_eq!(bo.target_features, "+f");
}
