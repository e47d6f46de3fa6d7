use acpbridge::config::{
    default_lark_base_url, default_show_auto_approved, default_show_thinking,
    default_wechat_base_url, AgentConfig, BotConfig, ChannelConfig, Config, ConfigError,
    PlatformConfig, TelegramConfig,
};
use acpbridge::option_map::OptionMap;

fn bot(name: &str, command: &str) -> BotConfig {
    BotConfig {
        name: name.to_string(),
        description: None,
        agent: AgentConfig { command: command.to_string(), args: vec![] },
        working_dir: None,
        model: None,
        mode: None,
        config_options: OptionMap::new(),
        instructions: None,
        show_thinking: default_show_thinking(),
        show_auto_approved: default_show_auto_approved(),
    }
}

fn channel(name: &str, default_bot: Option<&str>, bots: &[&str]) -> ChannelConfig {
    ChannelConfig {
        name: name.to_string(),
        platform: PlatformConfig::Telegram { telegram: TelegramConfig { token: "xxx".to_string() } },
        default_bot: default_bot.map(|s| s.to_string()),
        bots: bots.iter().map(|s| s.to_string()).collect(),
        mention_only: false,
    }
}

fn config(bots: Vec<BotConfig>, channels: Vec<ChannelConfig>) -> Config {
    Config { mcp_server: None, bots, channels }
}

#[test]
fn test_validate_unknown_bot_reference() {
    let config = config(
        vec![bot("real-bot", "kimi")],
        vec![channel("ch", None, &["nonexistent-bot"])],
    );
    assert!(config.validate().is_err());
}

#[test]
fn test_validate_default_bot_not_in_list() {
    let config = config(
        vec![bot("bot-a", "kimi"), bot("bot-b", "gemini")],
        vec![channel("ch", Some("bot-b"), &["bot-a"])],
    );
    assert!(config.validate().is_err());
}

#[test]
fn each_fault_has_its_message() {
    let bots = vec![bot("a", "x"), bot("b", "y")];
    let unknown = config(bots.clone(), vec![channel("one", None, &["a"]), channel("two", Some("z"), &["a", "c"])]);
    let error = unknown.validate().unwrap_err();
    assert!(matches!(error, ConfigError::UnknownBot { .. }));
    assert_eq!(error.message(), "Channel 'two' references unknown bot 'c'");

    let unlisted = config(bots.clone(), vec![channel("ch", Some("b"), &["a"])]);
    assert_eq!(
        unlisted.validate().unwrap_err().message(),
        "Channel 'ch' default_bot 'b' is not in its bots list"
    );

    let empty = config(bots.clone(), vec![channel("ch", None, &[])]);
    assert_eq!(empty.validate().unwrap_err().message(), "Channel 'ch' has no bots configured");

    assert!(config(bots.clone(), vec![channel("ch", Some("b"), &["a", "b"])]).validate().is_ok());
    assert!(config(bots, vec![]).validate().is_ok());
}

#[test]
fn bots_and_channels_are_found_by_name() {
    let config = config(
        vec![bot("a", "first"), bot("b", "second"), bot("a", "third")],
        vec![channel("ch", None, &["b", "a"])],
    );
    assert_eq!(config.get_bot("a").unwrap().agent.command, "first");
    assert_eq!(config.get_bot("b").unwrap().agent.command, "second");
    assert!(config.get_bot("c").is_none());
    assert!(config.get_channel("nope").is_none());
    let found = config.get_channel("ch").unwrap();
    assert_eq!(found.starting_bot(), Some("b".to_string()));
    assert_eq!(config.describe("a"), "No description");
}

#[test]
fn defaults_are_as_documented() {
    assert!(default_show_thinking());
    assert!(!default_show_auto_approved());
    assert_eq!(default_lark_base_url(), "https://open.feishu.cn");
    assert_eq!(default_wechat_base_url(), "https://ilinkai.weixin.qq.com");
}
