use ferrowl::command::{parse, Cmd, LuaCommand};

#[test]
fn ut_empty() {
    assert_eq!(parse(""), Cmd::Empty);
    assert_eq!(parse("   "), Cmd::Empty);
}

#[test]
fn ut_simple() {
    assert_eq!(parse("q"), Cmd::Quit);
    assert_eq!(parse("quit"), Cmd::Quit);
    assert_eq!(parse("q!"), Cmd::Quit);
    assert_eq!(parse("e"), Cmd::Edit);
    assert_eq!(parse("new"), Cmd::New);
    assert_eq!(parse("start"), Cmd::Start);
    assert_eq!(parse("stop"), Cmd::Stop);
    assert_eq!(parse("restart"), Cmd::Restart);
}

#[test]
fn ut_set() {
    assert_eq!(
        parse("set power 100"),
        Cmd::SetRegister {
            register: "power".to_string(),
            value: "100".to_string()
        }
    );
    assert_eq!(
        parse("set label hello world"),
        Cmd::SetRegister {
            register: "label".to_string(),
            value: "hello world".to_string()
        }
    );
    assert_eq!(
        parse("set power"),
        Cmd::SetRegister {
            register: "power".to_string(),
            value: String::new()
        }
    );
}

#[test]
fn ut_set_quoted() {
    assert_eq!(
        parse("set \"Slave Mode\" idle"),
        Cmd::SetRegister {
            register: "Slave Mode".to_string(),
            value: "idle".to_string()
        }
    );
    assert_eq!(
        parse("set \"My Reg\" hello world"),
        Cmd::SetRegister {
            register: "My Reg".to_string(),
            value: "hello world".to_string()
        }
    );
    assert_eq!(
        parse("set \"My Reg\""),
        Cmd::SetRegister {
            register: "My Reg".to_string(),
            value: String::new()
        }
    );
    assert_eq!(
        parse("set \"My Reg"),
        Cmd::SetRegister {
            register: "My Reg".to_string(),
            value: String::new()
        }
    );
}

#[test]
fn ut_optional_paths() {
    assert_eq!(parse("w"), Cmd::Write(None));
    assert_eq!(
        parse("write out.toml"),
        Cmd::Write(Some("out.toml".to_string()))
    );
    assert_eq!(
        parse("load dev.toml"),
        Cmd::Load(Some("dev.toml".to_string()))
    );
    assert_eq!(parse("log run.log"), Cmd::Log(Some("run.log".to_string())));
    assert_eq!(parse("log"), Cmd::Log(None));
}

#[test]
fn ut_lua() {
    assert_eq!(parse("lua start"), Cmd::Lua(LuaCommand::Start));
    assert_eq!(parse("lua stop"), Cmd::Lua(LuaCommand::Stop));
    assert_eq!(parse("lua"), Cmd::Unknown("lua".to_string()));
    assert_eq!(parse("lua wat"), Cmd::Unknown("lua wat".to_string()));
}

#[test]
fn ut_order() {
    assert_eq!(
        parse("order"),
        Cmd::Order {
            column: None,
            descending: false
        }
    );
    assert_eq!(
        parse("order name"),
        Cmd::Order {
            column: Some("name".to_string()),
            descending: false
        }
    );
    assert_eq!(
        parse("order Address ASC"),
        Cmd::Order {
            column: Some("Address".to_string()),
            descending: false
        }
    );
    assert_eq!(
        parse("order slave id desc"),
        Cmd::Order {
            column: Some("slave id".to_string()),
            descending: true
        }
    );
    assert_eq!(
        parse("order desc"),
        Cmd::Order {
            column: None,
            descending: true
        }
    );
}

#[test]
fn ut_unknown() {
    assert_eq!(parse("bogus"), Cmd::Unknown("bogus".to_string()));
}
