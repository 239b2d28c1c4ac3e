use img2jx::Backend;

#[test]
fn backend_names_ignore_ascii_case() {
    assert_eq!(Backend::parse("cpu"), Ok(Backend::Cpu));
    assert_eq!(Backend::parse("CPU"), Ok(Backend::Cpu));
    assert_eq!(Backend::parse("gPu"), Ok(Backend::Gpu));
    assert_eq!("Gpu".parse::<Backend>(), Ok(Backend::Gpu));
}

#[test]
fn unknown_backend_is_refused_with_its_name() {
    assert_eq!(
        Backend::parse("tpu"),
        Err("unknown backend 'tpu'; expected cpu or gpu".to_string())
    );
    assert_eq!(
        Backend::parse(" cpu"),
        Err("unknown backend ' cpu'; expected cpu or gpu".to_string())
    );
    assert_eq!(
        "".parse::<Backend>(),
        Err("unknown backend ''; expected cpu or gpu".to_string())
    );
    assert!(Backend::parse("\u{441}pu").is_err());
}
