use tmux_session_switcher::args::{
    Args, ArgsError, BorderStyle, Commands, FavoriteCommands, LayoutStyle, PickerBackend,
};

#[test]
fn test_favorite_add_no_args() {
    let args = Args::try_parse_from(&["tss", "favorite", "add"]).unwrap();
    match args.command {
        Some(Commands::Favorite(fa)) => match fa.command {
            FavoriteCommands::Add { name, session_name, index, path } => {
                assert!(name.is_none());
                assert!(session_name.is_none());
                assert!(index.is_none());
                assert!(path.is_none());
            }
            _ => panic!("Expected Add"),
        },
        _ => panic!("Expected Favorite"),
    }
}

#[test]
fn test_favorite_add_with_name() {
    let args = Args::try_parse_from(&["tss", "favorite", "add", "--name", "my-window"]).unwrap();
    match args.command {
        Some(Commands::Favorite(fa)) => match fa.command {
            FavoriteCommands::Add { name, .. } => {
                assert_eq!(name, Some("my-window".to_string()));
            }
            _ => panic!("Expected Add"),
        },
        _ => panic!("Expected Favorite"),
    }
}

#[test]
fn test_favorite_remove_with_name() {
    let args = Args::try_parse_from(&["tss", "favorite", "remove", "--name", "foo"]).unwrap();
    match args.command {
        Some(Commands::Favorite(fa)) => match fa.command {
            FavoriteCommands::Remove { name } => {
                assert_eq!(name, Some("foo".to_string()));
            }
            _ => panic!("Expected Remove"),
        },
        _ => panic!("Expected Favorite"),
    }
}

#[test]
fn test_favorite_list() {
    let args = Args::try_parse_from(&["tss", "favorite", "list"]).unwrap();
    match args.command {
        Some(Commands::Favorite(fa)) => match fa.command {
            FavoriteCommands::List => {}
            _ => panic!("Expected List"),
        },
        _ => panic!("Expected Favorite"),
    }
}

#[test]
fn test_no_subcommand_still_works() {
    let args = Args::try_parse_from(&["tss"]).unwrap();
    assert!(args.command.is_none());
}

#[test]
fn test_picker_flag_native() {
    let args = Args::try_parse_from(&["tss", "--picker", "native"]).unwrap();
    assert!(matches!(args.picker, Some(PickerBackend::Native)));
}

#[test]
fn test_picker_flag_fzf() {
    let args = Args::try_parse_from(&["tss", "--picker", "fzf"]).unwrap();
    assert!(matches!(args.picker, Some(PickerBackend::Fzf)));
}

#[test]
fn test_picker_flag_absent() {
    let args = Args::try_parse_from(&["tss"]).unwrap();
    assert!(args.picker.is_none());
}

#[test]
fn test_favorite_add_with_all_short_flags() {
    let args = Args::try_parse_from(&[
        "tss", "favorite", "add",
        "-n", "mywin",
        "-s", "main",
        "-i", "2",
        "-p", "/home/user",
    ])
    .unwrap();
    match args.command {
        Some(Commands::Favorite(fa)) => match fa.command {
            FavoriteCommands::Add { name, session_name, index, path } => {
                assert_eq!(name, Some("mywin".to_string()));
                assert_eq!(session_name, Some("main".to_string()));
                assert_eq!(index, Some(2u16));
                assert_eq!(path, Some("/home/user".to_string()));
            }
            _ => panic!("Expected Add"),
        },
        _ => panic!("Expected Favorite"),
    }
}

#[test]
fn test_favorite_add_invalid_index_fails() {
    let result = Args::try_parse_from(&["tss", "favorite", "add", "--index", "notanumber"]);
    assert!(result.is_err());
}

#[test]
fn test_internal_picker_subcommand() {
    let args = Args::try_parse_from(&[
        "tss", "internal-picker", "/tmp/items.json", "/tmp/result.txt",
    ])
    .unwrap();
    match args.command {
        Some(Commands::InternalPicker { items_path, result_path }) => {
            assert_eq!(items_path, "/tmp/items.json");
            assert_eq!(result_path, "/tmp/result.txt");
        }
        _ => panic!("Expected InternalPicker"),
    }
}

#[test]
fn defaults_when_no_options_given() {
    let args = Args::try_parse_from(&["tss"]).unwrap();
    assert_eq!(args.config, "~/.config/tmux-session-switcher/config.toml");
    assert_eq!(args.title, "Switch");
    assert_eq!(args.border, BorderStyle::Rounded);
    assert_eq!(args.layout, LayoutStyle::Default);
    assert!(args.theme.is_none());
}

#[test]
fn long_options_take_attached_and_separate_values() {
    let args = Args::try_parse_from(&[
        "tss", "--title=Pick", "--border", "double", "-lreverse", "--theme", "nord", "-c=/x.toml",
    ])
    .unwrap();
    assert_eq!(args.title, "Pick");
    assert_eq!(args.border, BorderStyle::Double);
    assert_eq!(args.layout, LayoutStyle::Reverse);
    assert_eq!(args.theme, Some("nord".to_string()));
    assert_eq!(args.config, "/x.toml");
}

#[test]
fn value_names_round_trip() {
    for b in [BorderStyle::Rounded, BorderStyle::Thinblock, BorderStyle::Borderless] {
        let args = Args::try_parse_from(&["tss", "--border", b.as_str()]).unwrap();
        assert_eq!(args.border, b);
    }
    assert_eq!(BorderStyle::Borderless.as_str(), "none");
    assert_eq!(LayoutStyle::ReverseList.as_str(), "reverse-list");
}

#[test]
fn errors_name_the_offending_token() {
    assert_eq!(Args::try_parse_from(&["tss", "--bogus"]).unwrap_err(), ArgsError::UnknownArgument(1));
    assert_eq!(Args::try_parse_from(&["tss", "--title"]).unwrap_err(), ArgsError::MissingValue(1));
    assert_eq!(Args::try_parse_from(&["tss", "-t", "-x"]).unwrap_err(), ArgsError::MissingValue(1));
    assert_eq!(Args::try_parse_from(&["tss", "--border", "wavy"]).unwrap_err(), ArgsError::InvalidValue(2));
    assert_eq!(
        Args::try_parse_from(&["tss", "-t", "a", "--title", "b"]).unwrap_err(),
        ArgsError::DuplicateArgument(3)
    );
    assert_eq!(Args::try_parse_from(&["tss", "favorite"]).unwrap_err(), ArgsError::MissingSubcommand);
    assert_eq!(
        Args::try_parse_from(&["tss", "internal-picker", "/a"]).unwrap_err(),
        ArgsError::MissingPositional
    );
    assert_eq!(Args::try_parse_from(&["tss", "frobnicate"]).unwrap_err(), ArgsError::UnknownArgument(1));
    assert_eq!(
        Args::try_parse_from(&["tss", "favorite", "list", "extra"]).unwrap_err(),
        ArgsError::UnknownArgument(3)
    );
    assert_eq!(
        Args::try_parse_from(&["tss", "favorite", "add", "-i", "70000"]).unwrap_err(),
        ArgsError::InvalidValue(4)
    );
}

#[test]
fn help_and_version_are_reported() {
    assert_eq!(Args::try_parse_from(&["tss", "--help"]).unwrap_err(), ArgsError::HelpRequested);
    assert_eq!(Args::try_parse_from(&["tss", "favorite", "-h"]).unwrap_err(), ArgsError::HelpRequested);
    assert_eq!(Args::try_parse_from(&["tss", "-V"]).unwrap_err(), ArgsError::VersionRequested);
    assert_eq!(
        Args::try_parse_from(&["tss", "favorite", "--version"]).unwrap_err(),
        ArgsError::UnknownArgument(2)
    );
}

#[test]
fn index_accepts_plus_sign() {
    let args = Args::try_parse_from(&["tss", "favorite", "add", "--index=+7"]).unwrap();
    match args.command {
        Some(Commands::Favorite(fa)) => match fa.command {
            FavoriteCommands::Add { index, .. } => assert_eq!(index, Some(7)),
            _ => panic!("Expected Add"),
        },
        _ => panic!("Expected Favorite"),
    }
}
