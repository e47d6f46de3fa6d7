//! The configuration: which bots there are, and which channels offer them.

use crate::option_map::OptionMap;
use crate::split::{cat3, cat5, lists, opt_text, same, texts};
use vstd::prelude::*;
use vstd::string::*;

verus! {

/// The whole configuration.
#[derive(Debug, Clone)]
pub struct Config {
    pub mcp_server: Option<McpServerConfig>,
    /// The bots, which channels refer to by name.
    pub bots: Vec<BotConfig>,
    pub channels: Vec<ChannelConfig>,
}

/// A bot: an agent with its instructions and settings. Several channels may
/// offer the same bot.
#[derive(Debug, Clone)]
pub struct BotConfig {
    pub name: String,
    pub description: Option<String>,
    pub agent: AgentConfig,
    pub working_dir: Option<String>,
    pub model: Option<String>,
    pub mode: Option<String>,
    /// Session options to set, such as `reasoning_effort`.
    pub config_options: OptionMap,
    /// What stands before the first message of a conversation.
    pub instructions: Option<String>,
    /// Whether users see what the agent thinks.
    pub show_thinking: bool,
    /// Whether users see which tools were approved for the agent.
    pub show_auto_approved: bool,
}

/// What `show_thinking` is where nothing is said.
pub fn default_show_thinking() -> (r: bool)
    ensures
        r,
{
    true
}

/// What `show_auto_approved` is where nothing is said.
pub fn default_show_auto_approved() -> (r: bool)
    ensures
        !r,
{
    false
}

/// A channel: a connection to a messaging platform, with the bots it offers.
#[derive(Debug, Clone)]
pub struct ChannelConfig {
    pub name: String,
    pub platform: PlatformConfig,
    /// The bot of a new chat.
    pub default_bot: Option<String>,
    pub bots: Vec<String>,
    /// Whether group messages count only where they mention the bot.
    pub mention_only: bool,
}

/// The platform of a channel.
#[derive(Debug, Clone)]
pub enum PlatformConfig {
    Telegram { telegram: TelegramConfig },
    Qq { qq: QqConfig },
    Lark { lark: LarkConfig },
    Wechat { wechat: WeChatConfig },
}

/// Where the MCP server listens.
#[derive(Debug, Clone)]
pub struct McpServerConfig {
    pub port: u16,
}

/// How an agent is started.
#[derive(Debug, Clone)]
pub struct AgentConfig {
    pub command: String,
    pub args: Vec<String>,
}

#[derive(Debug, Clone)]
pub struct TelegramConfig {
    pub token: String,
}

#[derive(Debug, Clone)]
pub struct QqConfig {
    pub app_id: String,
    pub client_secret: String,
}

#[derive(Debug, Clone)]
pub struct LarkConfig {
    pub app_id: String,
    pub app_secret: String,
    pub base_url: String,
}

/// The Lark service that is used where none is named.
pub fn default_lark_base_url() -> (r: String)
    ensures
        r@ == "https://open.feishu.cn"@,
{
    "https://open.feishu.cn".to_string()
}

#[derive(Debug, Clone)]
pub struct WeChatConfig {
    pub bot_token: String,
    pub base_url: String,
}

/// The WeChat service that is used where none is named.
pub fn default_wechat_base_url() -> (r: String)
    ensures
        r@ == "https://ilinkai.weixin.qq.com"@,
{
    "https://ilinkai.weixin.qq.com".to_string()
}

/// What is wrong with a configuration.
#[derive(Debug, Clone)]
pub enum ConfigError {
    UnknownBot { channel: String, bot: String },
    DefaultNotListed { channel: String, bot: String },
    NoBots { channel: String },
}

/// What is wrong with a configuration, as text.
pub enum ConfigErrorView {
    UnknownBot { channel: Seq<char>, bot: Seq<char> },
    DefaultNotListed { channel: Seq<char>, bot: Seq<char> },
    NoBots { channel: Seq<char> },
}

impl View for ConfigError {
    type V = ConfigErrorView;

    open spec fn view(&self) -> ConfigErrorView {
        match *self {
            ConfigError::UnknownBot { channel, bot } => ConfigErrorView::UnknownBot {
                channel: channel@,
                bot: bot@,
            },
            ConfigError::DefaultNotListed { channel, bot } => ConfigErrorView::DefaultNotListed {
                channel: channel@,
                bot: bot@,
            },
            ConfigError::NoBots { channel } => ConfigErrorView::NoBots { channel: channel@ },
        }
    }
}

/// How a configuration error reads.
pub open spec fn config_error_text(e: ConfigErrorView) -> Seq<char> {
    match e {
        ConfigErrorView::UnknownBot { channel, bot } => "Channel '"@ + channel
            + "' references unknown bot '"@ + bot + "'"@,
        ConfigErrorView::DefaultNotListed { channel, bot } => "Channel '"@ + channel
            + "' default_bot '"@ + bot + "' is not in its bots list"@,
        ConfigErrorView::NoBots { channel } => "Channel '"@ + channel + "' has no bots configured"@,
    }
}

impl ConfigError {
    /// The error in words.
    pub fn message(&self) -> (r: String)
        ensures
            r@ == config_error_text(self@),
    {
        match self {
            ConfigError::UnknownBot { channel, bot } => cat5(
                "Channel '",
                channel.as_str(),
                "' references unknown bot '",
                bot.as_str(),
                "'",
            ),
            ConfigError::DefaultNotListed { channel, bot } => cat5(
                "Channel '",
                channel.as_str(),
                "' default_bot '",
                bot.as_str(),
                "' is not in its bots list",
            ),
            ConfigError::NoBots { channel } => cat3(
                "Channel '",
                channel.as_str(),
                "' has no bots configured",
            ),
        }
    }
}

/// The first bot of a name.
pub open spec fn bot_named(bots: Seq<BotConfig>, name: Seq<char>) -> Option<BotConfig>
    decreases bots.len(),
{
    if bots.len() == 0 {
        None
    } else if bots[0].name@ == name {
        Some(bots[0])
    } else {
        bot_named(bots.skip(1), name)
    }
}

/// The first channel of a name.
pub open spec fn channel_named(channels: Seq<ChannelConfig>, name: Seq<char>) -> Option<
    ChannelConfig,
>
    decreases channels.len(),
{
    if channels.len() == 0 {
        None
    } else if channels[0].name@ == name {
        Some(channels[0])
    } else {
        channel_named(channels.skip(1), name)
    }
}

/// The first name that no bot has.
pub open spec fn first_unknown(bots: Seq<BotConfig>, names: Seq<Seq<char>>) -> Option<Seq<char>>
    decreases names.len(),
{
    if names.len() == 0 {
        None
    } else if bot_named(bots, names[0]) is None {
        Some(names[0])
    } else {
        first_unknown(bots, names.skip(1))
    }
}

/// What is wrong with a channel, if anything: a bot that does not exist, a
/// default that is not among its bots, or no bots at all.
pub open spec fn channel_error(bots: Seq<BotConfig>, channel: ChannelConfig) -> Option<
    ConfigErrorView,
> {
    match (first_unknown(bots, texts(channel.bots@)), opt_text(channel.default_bot)) {
        (Some(bot), _) => Some(ConfigErrorView::UnknownBot { channel: channel.name@, bot }),
        (None, Some(bot)) => if !texts(channel.bots@).contains(bot) {
            Some(ConfigErrorView::DefaultNotListed { channel: channel.name@, bot })
        } else {
            None
        },
        (None, None) => if channel.bots@.len() == 0 {
            Some(ConfigErrorView::NoBots { channel: channel.name@ })
        } else {
            None
        },
    }
}

/// What is wrong with the first channel with which anything is wrong.
pub open spec fn config_error(bots: Seq<BotConfig>, channels: Seq<ChannelConfig>) -> Option<
    ConfigErrorView,
>
    decreases channels.len(),
{
    if channels.len() == 0 {
        None
    } else {
        match channel_error(bots, channels[0]) {
            Some(e) => Some(e),
            None => config_error(bots, channels.skip(1)),
        }
    }
}

/// The bot of a new chat: the channel's default, or else the first it offers.
pub open spec fn starting_bot(channel: ChannelConfig) -> Option<Seq<char>> {
    match opt_text(channel.default_bot) {
        Some(name) => Some(name),
        None => if channel.bots@.len() > 0 {
            Some(channel.bots@[0]@)
        } else {
            None
        },
    }
}

/// How a bot is described to users.
pub open spec fn description_of(bots: Seq<BotConfig>, name: Seq<char>) -> Seq<char> {
    match bot_named(bots, name) {
        Some(b) => match opt_text(b.description) {
            Some(d) => d,
            None => "No description"@,
        },
        None => "No description"@,
    }
}

impl ChannelConfig {
    /// The bot of a new chat.
    pub fn starting_bot(&self) -> (r: Option<String>)
        ensures
            opt_text(r) == starting_bot(*self),
    {
        match &self.default_bot {
            Some(name) => Some(name.clone()),
            None => if self.bots.len() > 0 {
                Some(self.bots[0].clone())
            } else {
                None
            },
        }
    }
}

impl Config {
    /// Checks that every bot that a channel names exists, that its default is
    /// one of them, and that it has at least one.
    pub fn validate(&self) -> (r: Result<(), ConfigError>)
        ensures
            match r {
                Ok(_) => config_error(self.bots@, self.channels@) is None,
                Err(e) => config_error(self.bots@, self.channels@) == Some(e@),
            },
    {
        let mut i: usize = 0;
        proof {
            assert(self.channels@.skip(0) == self.channels@);
        }
        while i < self.channels.len()
            invariant
                i <= self.channels@.len(),
                config_error(self.bots@, self.channels@.skip(i as int)) == config_error(
                    self.bots@,
                    self.channels@,
                ),
            decreases self.channels@.len() - i,
        {
            proof {
                assert(self.channels@.skip(i as int)[0] == self.channels@[i as int]);
                assert(self.channels@.skip(i as int).skip(1) == self.channels@.skip(i + 1));
            }
            match self.check_channel(&self.channels[i]) {
                Ok(_) => {},
                Err(e) => {
                    return Err(e);
                },
            }
            i += 1;
        }
        Ok(())
    }

    /// Checks one channel.
    fn check_channel(&self, channel: &ChannelConfig) -> (r: Result<(), ConfigError>)
        ensures
            match r {
                Ok(_) => channel_error(self.bots@, *channel) is None,
                Err(e) => channel_error(self.bots@, *channel) == Some(e@),
            },
    {
        let ghost names = texts(channel.bots@);
        let mut i: usize = 0;
        proof {
            assert(names.skip(0) == names);
        }
        while i < channel.bots.len()
            invariant
                i <= channel.bots@.len(),
                names == texts(channel.bots@),
                first_unknown(self.bots@, names.skip(i as int)) == first_unknown(self.bots@, names),
            decreases channel.bots@.len() - i,
        {
            proof {
                assert(names.skip(i as int)[0] == channel.bots@[i as int]@);
                assert(names.skip(i as int).skip(1) == names.skip(i + 1));
            }
            if self.get_bot(channel.bots[i].as_str()).is_none() {
                return Err(
                    ConfigError::UnknownBot {
                        channel: channel.name.clone(),
                        bot: channel.bots[i].clone(),
                    },
                );
            }
            i += 1;
        }
        if let Some(default) = &channel.default_bot {
            if !lists(&channel.bots, default.as_str()) {
                return Err(
                    ConfigError::DefaultNotListed {
                        channel: channel.name.clone(),
                        bot: default.clone(),
                    },
                );
            }
        }
        if channel.bots.len() == 0 {
            return Err(ConfigError::NoBots { channel: channel.name.clone() });
        }
        Ok(())
    }

    /// Finds a bot by its name.
    pub fn get_bot(&self, name: &str) -> (r: Option<&BotConfig>)
        ensures
            match r {
                Some(b) => bot_named(self.bots@, name@) == Some(*b),
                None => bot_named(self.bots@, name@) is None,
            },
    {
        let mut i: usize = 0;
        proof {
            assert(self.bots@.skip(0) == self.bots@);
        }
        while i < self.bots.len()
            invariant
                i <= self.bots@.len(),
                bot_named(self.bots@.skip(i as int), name@) == bot_named(self.bots@, name@),
            decreases self.bots@.len() - i,
        {
            proof {
                assert(self.bots@.skip(i as int)[0] == self.bots@[i as int]);
                assert(self.bots@.skip(i as int).skip(1) == self.bots@.skip(i + 1));
            }
            if same(self.bots[i].name.as_str(), name) {
                return Some(&self.bots[i]);
            }
            i += 1;
        }
        None
    }

    /// Finds a channel by its name.
    pub fn get_channel(&self, name: &str) -> (r: Option<&ChannelConfig>)
        ensures
            match r {
                Some(c) => channel_named(self.channels@, name@) == Some(*c),
                None => channel_named(self.channels@, name@) is None,
            },
    {
        let mut i: usize = 0;
        proof {
            assert(self.channels@.skip(0) == self.channels@);
        }
        while i < self.channels.len()
            invariant
                i <= self.channels@.len(),
                channel_named(self.channels@.skip(i as int), name@) == channel_named(
                    self.channels@,
                    name@,
                ),
            decreases self.channels@.len() - i,
        {
            proof {
                assert(self.channels@.skip(i as int)[0] == self.channels@[i as int]);
                assert(self.channels@.skip(i as int).skip(1) == self.channels@.skip(i + 1));
            }
            if same(self.channels[i].name.as_str(), name) {
                return Some(&self.channels[i]);
            }
            i += 1;
        }
        None
    }

    /// How a bot is described to users.
    pub fn describe(&self, name: &str) -> (r: String)
        ensures
            r@ == description_of(self.bots@, name@),
    {
        match self.get_bot(name) {
            Some(b) => match &b.description {
                Some(d) => d.clone(),
                None => "No description".to_string(),
            },
            None => "No description".to_string(),
        }
    }
}

/// A name that is among some names has a bot, where none of the names is
/// unknown.
proof fn lemma_known(bots: Seq<BotConfig>, names: Seq<Seq<char>>, name: Seq<char>)
    requires
        first_unknown(bots, names) is None,
        names.contains(name),
    ensures
        bot_named(bots, name) is Some,
    decreases names.len(),
{
    let i = names.index_of(name);
    if i > 0 {
        assert(names.skip(1)[i - 1] == name);
        lemma_known(bots, names.skip(1), name);
    }
}

/// In a configuration without errors nothing is wrong with any channel.
proof fn lemma_each_channel(bots: Seq<BotConfig>, channels: Seq<ChannelConfig>, i: int)
    requires
        config_error(bots, channels) is None,
        0 <= i < channels.len(),
    ensures
        channel_error(bots, channels[i]) is None,
    decreases channels.len(),
{
    if i > 0 {
        assert(channels.skip(1)[i - 1] == channels[i]);
        lemma_each_channel(bots, channels.skip(1), i - 1);
    }
}

/// A valid configuration leaves no channel without a working bot: every channel
/// offers at least one, every one that it offers exists, and its default is one
/// of them.
pub proof fn valid_channels_have_their_bots(
    bots: Seq<BotConfig>,
    channels: Seq<ChannelConfig>,
    i: int,
)
    requires
        config_error(bots, channels) is None,
        0 <= i < channels.len(),
    ensures
        channels[i].bots@.len() > 0,
        forall|name: Seq<char>| #[trigger]
            texts(channels[i].bots@).contains(name) ==> bot_named(bots, name) is Some,
        opt_text(channels[i].default_bot) matches Some(name) ==> texts(channels[i].bots@).contains(
            name,
        ),
        starting_bot(channels[i]) matches Some(name) && bot_named(bots, name) is Some,
{
    lemma_each_channel(bots, channels, i);
    let c = channels[i];
    let names = texts(c.bots@);
    assert forall|name: Seq<char>| #[trigger] names.contains(name) implies bot_named(
        bots,
        name,
    ) is Some by {
        lemma_known(bots, names, name);
    }
    if c.bots@.len() > 0 {
        assert(names[0] == c.bots@[0]@);
        assert(names.contains(names[0]));
    }
}

/// A channel found by its name is one of the channels, and has that name.
pub proof fn lemma_channel_named(channels: Seq<ChannelConfig>, name: Seq<char>)
    ensures
        match channel_named(channels, name) {
            Some(c) => c.name@ == name && exists|i: int|
                0 <= i < channels.len() && #[trigger] channels[i] == c,
            None => forall|i: int|
                0 <= i < channels.len() ==> (#[trigger] channels[i]).name@ != name,
        },
    decreases channels.len(),
{
    if channels.len() > 0 && channels[0].name@ != name {
        let rest = channels.skip(1);
        lemma_channel_named(rest, name);
        match channel_named(rest, name) {
            Some(c) => {
                let i = choose|i: int| 0 <= i < rest.len() && #[trigger] rest[i] == c;
                assert(channels[i + 1] == c);
            },
            None => {
                assert forall|i: int| 0 <= i < channels.len() implies (
                #[trigger] channels[i]).name@ != name by {
                    if i > 0 {
                        assert(channels[i] == rest[i - 1]);
                    }
                }
            },
        }
    }
}

/// A bot found by its name has that name.
pub proof fn lemma_bot_named(bots: Seq<BotConfig>, name: Seq<char>)
    ensures
        bot_named(bots, name) matches Some(b) ==> b.name@ == name,
    decreases bots.len(),
{
    if bots.len() > 0 && bots[0].name@ != name {
        lemma_bot_named(bots.skip(1), name);
    }
}

/// Names lead to the first bot that has them, and to none only where no bot has
/// them.
pub proof fn bots_are_found_by_name(bots: Seq<BotConfig>, name: Seq<char>)
    ensures
        match bot_named(bots, name) {
            Some(b) => exists|i: int|
                0 <= i < bots.len() && #[trigger] bots[i] == b && b.name@ == name && forall|j: int|
                    0 <= j < i ==> (#[trigger] bots[j]).name@ != name,
            None => forall|j: int| 0 <= j < bots.len() ==> (#[trigger] bots[j]).name@ != name,
        },
    decreases bots.len(),
{
    if bots.len() > 0 {
        if bots[0].name@ == name {
            assert(bots[0] == bots[0]);
        } else {
            let rest = bots.skip(1);
            bots_are_found_by_name(rest, name);
            match bot_named(rest, name) {
                Some(b) => {
                    let i = choose|i: int|
                        0 <= i < rest.len() && #[trigger] rest[i] == b && b.name@ == name && forall|
                            j: int,
                        | 0 <= j < i ==> (#[trigger] rest[j]).name@ != name;
                    assert(bots[i + 1] == b);
                    assert forall|j: int| 0 <= j < i + 1 implies (#[trigger] bots[j]).name@
                        != name by {
                        if j > 0 {
                            assert(bots[j] == rest[j - 1]);
                        }
                    }
                },
                None => {
                    assert forall|j: int| 0 <= j < bots.len() implies (#[trigger] bots[j]).name@
                        != name by {
                        if j > 0 {
                            assert(bots[j] == rest[j - 1]);
                        }
                    }
                },
            }
        }
    }
}

/// The first bot of a name is the one that its name leads to.
pub proof fn the_first_bot_of_a_name_is_taken(bots: Seq<BotConfig>, i: int)
    requires
        0 <= i < bots.len(),
        forall|j: int| 0 <= j < i ==> (#[trigger] bots[j]).name@ != bots[i].name@,
    ensures
        bot_named(bots, bots[i].name@) == Some(bots[i]),
{
    let name = bots[i].name@;
    bots_are_found_by_name(bots, name);
    let b = bot_named(bots, name)->0;
    let k = choose|k: int|
        0 <= k < bots.len() && #[trigger] bots[k] == b && b.name@ == name && forall|j: int|
            0 <= j < k ==> (#[trigger] bots[j]).name@ != name;
    if k < i {
        assert(bots[k].name@ != name);
    }
    if i < k {
        assert(bots[i].name@ != name);
    }
}

/// The first channel of a name is the one that its name leads to, and a name that
/// no channel has leads to none.
pub proof fn channels_are_found_by_name(channels: Seq<ChannelConfig>, i: int, name: Seq<char>)
    ensures
        0 <= i < channels.len() && channels[i].name@ == name && (forall|j: int|
            0 <= j < i ==> (#[trigger] channels[j]).name@ != name) ==> channel_named(channels, name)
            == Some(channels[i]),
        (forall|j: int| 0 <= j < channels.len() ==> (#[trigger] channels[j]).name@ != name)
            ==> channel_named(channels, name) is None,
    decreases channels.len(),
{
    if channels.len() > 0 {
        let rest = channels.skip(1);
        channels_are_found_by_name(rest, i - 1, name);
        if 0 <= i < channels.len() && channels[i].name@ == name && (forall|j: int|
            0 <= j < i ==> (#[trigger] channels[j]).name@ != name) {
            if i > 0 {
                assert(channels[0].name@ != name);
                assert(rest[i - 1] == channels[i]);
                assert forall|j: int| 0 <= j < i - 1 implies (#[trigger] rest[j]).name@ != name by {
                    assert(rest[j] == channels[j + 1]);
                }
            }
        }
        if forall|j: int| 0 <= j < channels.len() ==> (#[trigger] channels[j]).name@ != name {
            assert(channels[0].name@ != name);
            assert forall|j: int| 0 <= j < rest.len() implies (#[trigger] rest[j]).name@ != name by {
                assert(rest[j] == channels[j + 1]);
            }
        }
    }
}

/// A new chat gets the channel's default bot wherever the channel has one, and
/// the first bot of its list only where it has none.
pub proof fn new_chats_start_with_the_default(channel: ChannelConfig)
    ensures
        channel.default_bot matches Some(d) ==> starting_bot(channel) == Some(d@),
        channel.default_bot is None && channel.bots@.len() > 0 ==> starting_bot(channel) == Some(
            channel.bots@[0]@,
        ),
        channel.default_bot is None && channel.bots@.len() == 0 ==> starting_bot(channel) is None,
{
}

/// Users read a bot's own description, and that there is none only where the bot
/// has none or does not exist.
pub proof fn bots_are_described_in_their_words(bots: Seq<BotConfig>, i: int, name: Seq<char>)
    ensures
        0 <= i < bots.len() && bots[i].name@ == name && (forall|j: int|
            0 <= j < i ==> (#[trigger] bots[j]).name@ != name) ==> description_of(bots, name)
            == match bots[i].description {
            Some(d) => d@,
            None => "No description"@,
        },
        (forall|j: int| 0 <= j < bots.len() ==> (#[trigger] bots[j]).name@ != name)
            ==> description_of(bots, name) == "No description"@,
{
    bots_are_found_by_name(bots, name);
    if 0 <= i < bots.len() && bots[i].name@ == name && (forall|j: int|
        0 <= j < i ==> (#[trigger] bots[j]).name@ != name) {
        the_first_bot_of_a_name_is_taken(bots, i);
    }
    if forall|j: int| 0 <= j < bots.len() ==> (#[trigger] bots[j]).name@ != name {
        assert(bot_named(bots, name) is None);
    }
}

proof fn lemma_first_unknown(bots: Seq<BotConfig>, names: Seq<Seq<char>>)
    ensures
        match first_unknown(bots, names) {
            Some(name) => exists|k: int|
                0 <= k < names.len() && #[trigger] names[k] == name && bot_named(bots, name) is None
                    && forall|l: int|
                    0 <= l < k ==> bot_named(bots, #[trigger] names[l]) is Some,
            None => forall|k: int|
                0 <= k < names.len() ==> bot_named(bots, #[trigger] names[k]) is Some,
        },
    decreases names.len(),
{
    if names.len() > 0 {
        if bot_named(bots, names[0]) is None {
            assert(names[0] == names[0]);
        } else {
            let rest = names.skip(1);
            lemma_first_unknown(bots, rest);
            match first_unknown(bots, rest) {
                Some(name) => {
                    let k = choose|k: int|
                        0 <= k < rest.len() && #[trigger] rest[k] == name && bot_named(
                            bots,
                            name,
                        ) is None && forall|l: int|
                            0 <= l < k ==> bot_named(bots, #[trigger] rest[l]) is Some;
                    assert(names[k + 1] == name);
                    assert forall|l: int| 0 <= l < k + 1 implies bot_named(
                        bots,
                        #[trigger] names[l],
                    ) is Some by {
                        if l > 0 {
                            assert(names[l] == rest[l - 1]);
                        }
                    }
                },
                None => {
                    assert forall|k: int| 0 <= k < names.len() implies bot_named(
                        bots,
                        #[trigger] names[k],
                    ) is Some by {
                        if k > 0 {
                            assert(names[k] == rest[k - 1]);
                        }
                    }
                },
            }
        }
    }
}

/// What is wrong with a channel is what is said of it: a bot of its list that no
/// bot's name is, the first of these; else a default that is not in its list;
/// else that its list is empty; and nothing where none of this is the case.
pub proof fn errors_tell_what_is_wrong(bots: Seq<BotConfig>, channel: ChannelConfig)
    ensures
        match config_error(bots, seq![channel]) {
            Some(ConfigErrorView::UnknownBot { channel: c, bot }) => c == channel.name@ && exists|
                k: int,
            |
                0 <= k < channel.bots@.len() && (#[trigger] channel.bots@[k])@ == bot && (forall|
                    j: int,
                | 0 <= j < bots.len() ==> (#[trigger] bots[j]).name@ != bot) && (forall|l: int|
                    0 <= l < k ==> exists|j: int|
                        0 <= j < bots.len() && (#[trigger] bots[j]).name@ == (
                        #[trigger] channel.bots@[l])@),
            Some(ConfigErrorView::DefaultNotListed { channel: c, bot }) => {
                &&& c == channel.name@
                &&& channel.default_bot matches Some(d)
                &&& d@ == bot
                &&& forall|k: int|
                    0 <= k < channel.bots@.len() ==> (#[trigger] channel.bots@[k])@ != bot
            },
            Some(ConfigErrorView::NoBots { channel: c }) => c == channel.name@
                && channel.bots@.len() == 0 && channel.default_bot is None,
            None => {
                &&& channel.bots@.len() > 0
                &&& forall|k: int|
                    0 <= k < channel.bots@.len() ==> exists|j: int|
                        0 <= j < bots.len() && (#[trigger] bots[j]).name@ == (
                        #[trigger] channel.bots@[k])@
                &&& channel.default_bot matches Some(d) ==> exists|k: int|
                    0 <= k < channel.bots@.len() && (#[trigger] channel.bots@[k])@ == d@
            },
        },
{
    let names = texts(channel.bots@);
    let one = seq![channel];
    assert(one.skip(1) == Seq::<ChannelConfig>::empty());
    assert(config_error(bots, one.skip(1)) is None);
    lemma_first_unknown(bots, names);
    assert forall|name: Seq<char>| #[trigger] bot_named(bots, name) is Some implies exists|j: int|
        0 <= j < bots.len() && (#[trigger] bots[j]).name@ == name by {
        bots_are_found_by_name(bots, name);
    }
    match first_unknown(bots, names) {
        Some(bot) => {
            let k = choose|k: int|
                0 <= k < names.len() && #[trigger] names[k] == bot && bot_named(bots, bot) is None
                    && forall|l: int|
                    0 <= l < k ==> bot_named(bots, #[trigger] names[l]) is Some;
            assert(channel.bots@[k]@ == bot);
            bots_are_found_by_name(bots, bot);
            assert forall|l: int| 0 <= l < k implies exists|j: int|
                0 <= j < bots.len() && (#[trigger] bots[j]).name@ == (
                #[trigger] channel.bots@[l])@ by {
                assert(names[l] == channel.bots@[l]@);
                assert(bot_named(bots, names[l]) is Some);
            }
        },
        None => {
            assert forall|k: int| 0 <= k < channel.bots@.len() implies exists|j: int|
                0 <= j < bots.len() && (#[trigger] bots[j]).name@ == (
                #[trigger] channel.bots@[k])@ by {
                assert(names[k] == channel.bots@[k]@);
                assert(bot_named(bots, names[k]) is Some);
            }
            if let Some(d) = channel.default_bot {
                if names.contains(d@) {
                    let k = names.index_of(d@);
                    assert(channel.bots@[k]@ == d@);
                } else {
                    assert forall|k: int| 0 <= k < channel.bots@.len() implies (
                    #[trigger] channel.bots@[k])@ != d@ by {
                        assert(names[k] == channel.bots@[k]@);
                    }
                }
            }
        },
    }
}

/// The first channel with which anything is wrong is the one that is reported;
/// channels with which nothing is wrong make no difference.
pub proof fn the_first_error_is_reported(
    bots: Seq<BotConfig>,
    before: Seq<ChannelConfig>,
    channel: ChannelConfig,
    after: Seq<ChannelConfig>,
)
    requires
        forall|i: int|
            0 <= i < before.len() ==> config_error(bots, seq![#[trigger] before[i]]) is None,
    ensures
        config_error(bots, seq![channel]) is Some ==> config_error(bots, before + seq![channel] + after)
            == config_error(bots, seq![channel]),
        config_error(bots, before) is None,
    decreases before.len(),
{
    let all = before + seq![channel] + after;
    assert(seq![channel].skip(1) == Seq::<ChannelConfig>::empty());
    assert(config_error(bots, Seq::<ChannelConfig>::empty()) is None);
    if before.len() == 0 {
        assert(all[0] == channel);
    } else {
        let first = seq![before[0]];
        assert(config_error(bots, first) is None);
        assert(first.skip(1) == Seq::<ChannelConfig>::empty());
        assert(all[0] == before[0]);
        assert(all.skip(1) == before.skip(1) + seq![channel] + after);
        assert forall|i: int| 0 <= i < before.skip(1).len() implies config_error(
            bots,
            seq![#[trigger] before.skip(1)[i]],
        ) is None by {
            assert(before.skip(1)[i] == before[i + 1]);
        }
        the_first_error_is_reported(bots, before.skip(1), channel, after);
    }
}

/// An error names the channel and the bot that it is about.
pub proof fn errors_name_channel_and_bot(channel: Seq<char>, bot: Seq<char>)
    ensures
        config_error_text(ConfigErrorView::UnknownBot { channel, bot }) == "Channel '"@ + channel
            + "' references unknown bot '"@ + bot + "'"@,
        config_error_text(ConfigErrorView::DefaultNotListed { channel, bot }) == "Channel '"@
            + channel + "' default_bot '"@ + bot + "' is not in its bots list"@,
        config_error_text(ConfigErrorView::NoBots { channel }) == "Channel '"@ + channel
            + "' has no bots configured"@,
{
}

/// Where nothing is said, thoughts are shown, allowed tools are not, and the two
/// platforms that have addresses have their usual ones.
pub proof fn defaults_are_as_usual(yes: bool, address: String)
    ensures
        call_ensures(default_show_thinking, (), yes) ==> yes,
        call_ensures(default_show_auto_approved, (), yes) ==> !yes,
        call_ensures(default_lark_base_url, (), address) ==> address@ == "https://open.feishu.cn"@,
        call_ensures(default_wechat_base_url, (), address) ==> address@
            == "https://ilinkai.weixin.qq.com"@,
{
}

/// A new chat gets the bot that its channel names as the default, and without one
/// the first that the channel offers.
pub proof fn channels_start_with_their_default(channel: &ChannelConfig, r: Option<String>)
    requires
        call_ensures(ChannelConfig::starting_bot, (channel,), r),
    ensures
        channel.default_bot is Some ==> r is Some && r->0@ == channel.default_bot->0@,
        channel.default_bot is None && channel.bots@.len() > 0 ==> r is Some && r->0@
            == channel.bots@[0]@,
        channel.default_bot is None && channel.bots@.len() == 0 ==> r is None,
{
    new_chats_start_with_the_default(*channel);
}

/// A bot is looked up by its name: the first that has it is given, and nothing where
/// none has it. The same holds of channels.
pub proof fn lookups_go_by_name(
    config: &Config,
    name: &str,
    bot: Option<&BotConfig>,
    channel: Option<&ChannelConfig>,
    i: int,
)
    ensures
        call_ensures(Config::get_bot, (config, name), bot) ==> {
            &&& 0 <= i < config.bots@.len() && config.bots@[i].name@ == name@ && (forall|j: int|
                0 <= j < i ==> (#[trigger] config.bots@[j]).name@ != name@) ==> bot is Some
                && *bot->0 == config.bots@[i]
            &&& (forall|j: int|
                0 <= j < config.bots@.len() ==> (#[trigger] config.bots@[j]).name@ != name@)
                ==> bot is None
        },
        call_ensures(Config::get_channel, (config, name), channel) ==> {
            &&& 0 <= i < config.channels@.len() && config.channels@[i].name@ == name@ && (forall|
                j: int,
            |
                0 <= j < i ==> (#[trigger] config.channels@[j]).name@ != name@) ==> channel is Some
                && *channel->0 == config.channels@[i]
            &&& (forall|j: int|
                0 <= j < config.channels@.len() ==> (#[trigger] config.channels@[j]).name@ != name@)
                ==> channel is None
        },
{
    bots_are_found_by_name(config.bots@, name@);
    channels_are_found_by_name(config.channels@, i, name@);
    if 0 <= i < config.bots@.len() && config.bots@[i].name@ == name@ && (forall|j: int|
        0 <= j < i ==> (#[trigger] config.bots@[j]).name@ != name@) {
        the_first_bot_of_a_name_is_taken(config.bots@, i);
    }
}

/// A configuration is good where no channel has an error, and otherwise its first error
/// is given, in words that name the channel. A bot is described in its own words.
pub proof fn configurations_are_checked(
    config: &Config,
    r: Result<(), ConfigError>,
    e: &ConfigError,
    channel: String,
    bot: String,
    word: String,
    name: &str,
)
    ensures
        call_ensures(Config::validate, (config,), r) ==> (r is Ok <==> config_error(
            config.bots@,
            config.channels@,
        ) is None) && (r is Err ==> config_error(config.bots@, config.channels@) == Some(
            r->Err_0@,
        )),
        call_ensures(ConfigError::message, (e,), word) && *e == (ConfigError::UnknownBot {
            channel,
            bot,
        }) ==> word@ == "Channel '"@ + channel@ + "' references unknown bot '"@ + bot@ + "'"@,
        call_ensures(ConfigError::message, (e,), word) && *e == (ConfigError::DefaultNotListed {
            channel,
            bot,
        }) ==> word@ == "Channel '"@ + channel@ + "' default_bot '"@ + bot@
            + "' is not in its bots list"@,
        call_ensures(ConfigError::message, (e,), word) && *e == (ConfigError::NoBots { channel })
            ==> word@ == "Channel '"@ + channel@ + "' has no bots configured"@,
        call_ensures(Config::describe, (config, name), word) ==> word@ == description_of(
            config.bots@,
            name@,
        ),
{
}

}
