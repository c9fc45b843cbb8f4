use pairing_relay::commands::Commands;
use pairing_relay::confirm::{classify_reaction, remote_post_body, remote_post_title, thread_name_or_default, ReactionChoice};
use pairing_relay::errors::ErrorType;
use pairing_relay::log::{write_debug_log, write_error_log, write_info_log};
use pairing_relay::model::ReplicationPairData;
use pairing_relay::relay::{marker_emoji, relay_text, Marker};

fn chars(s: &str) -> Vec<char> {
    s.chars().collect()
}

#[test]
fn link_arguments_are_parsed() {
    let d = Commands::parse_link("1 2 -3 4").unwrap();
    assert_eq!(d, ReplicationPairData { from_guild: 1, from_channel: 2, to_guild: -3, to_channel: 4 });
    let big = Commands::parse_link("1079364734584786944 1079364735117475890 999 +12").unwrap();
    assert_eq!(big.from_guild, 1079364734584786944);
    assert_eq!(big.from_channel, 1079364735117475890);
    assert_eq!(big.to_channel, 12);
}

#[test]
fn bad_link_arguments_are_refused() {
    for args in ["1 2 3", "1 2 3 4 5", "1  2 3 4", "a 2 3 4", "1 2 3 4 ", "", "1 2 3 9223372036854775808"] {
        assert_eq!(Commands::parse_link(args).unwrap_err().err_type, ErrorType::BadRequest, "{args}");
    }
    assert_eq!(
        Commands::parse_link("1 2 3").unwrap_err().message,
        "Invalid arguments from_guild_id from_channel_id to_guild_id to_channel_id"
    );
    assert_eq!(Commands::parse_link("a 2 3 4").unwrap_err().message, "Invalid arguments: ids must be integers");
}

#[test]
fn integers_parse_at_the_edges() {
    assert_eq!(Commands::parse_i64(&chars("9223372036854775807")), Some(i64::MAX));
    assert_eq!(Commands::parse_i64(&chars("-9223372036854775808")), Some(i64::MIN));
    assert_eq!(Commands::parse_i64(&chars("9223372036854775808")), None);
    assert_eq!(Commands::parse_i64(&chars("-9223372036854775809")), None);
    assert_eq!(Commands::parse_i64(&chars("99999999999999999999999")), None);
    assert_eq!(Commands::parse_i64(&chars("0")), Some(0));
    assert_eq!(Commands::parse_i64(&chars("-0")), Some(0));
    assert_eq!(Commands::parse_i64(&chars("+7")), Some(7));
    assert_eq!(Commands::parse_i64(&chars("")), None);
    assert_eq!(Commands::parse_i64(&chars("-")), None);
    assert_eq!(Commands::parse_i64(&chars("12x")), None);
    assert_eq!(Commands::parse_i64(&chars(" 1")), None);
}

#[test]
fn relay_copy_quotes_the_author() {
    assert_eq!(relay_text("U", "hello"), "`U`: hello");
    assert_eq!(relay_text("", ""), "``: ");
}

#[test]
fn reactions_are_classified() {
    assert_eq!(classify_reaction("\u{1F44D}"), ReactionChoice::Accept);
    assert_eq!(classify_reaction("\u{1F44E}"), ReactionChoice::Reject);
    assert_eq!(classify_reaction("\u{1F44D}\u{1F44D}"), ReactionChoice::Other);
    assert_eq!(classify_reaction("x"), ReactionChoice::Other);
}

#[test]
fn markers_have_their_emoji() {
    assert_eq!(marker_emoji(Marker::Accept), '👍');
    assert_eq!(marker_emoji(Marker::Reject), '👎');
    assert_eq!(marker_emoji(Marker::Delivered), '🚀');
    assert_eq!(marker_emoji(Marker::Failed), '💥');
}

#[test]
fn remote_post_is_named_after_the_thread() {
    assert_eq!(remote_post_title("foo"), "foo - REPLICATED");
    assert_eq!(remote_post_body("foo"), "FIRST MSG - foo - REPLICATED");
    assert_eq!(thread_name_or_default(Some("foo".to_string())), "foo");
    assert_eq!(thread_name_or_default(None), "Replicated thread");
}

#[test]
fn log_lines_carry_their_level() {
    assert_eq!(write_debug_log("a".to_string()), "DEBUG============== -> a");
    assert_eq!(write_info_log("b".to_string()), "INFO============== -> b");
    assert_eq!(write_error_log("c".to_string()), "ERROR============== -> c");
}

#[test]
fn only_the_owner_passes_the_owner_check() {
    assert!(Commands::owner_check(7));
    assert!(!Commands::owner_check(8));
}

#[test]
fn administrator_bit_is_recognised() {
    assert!(!Commands::am_i_admin(&vec![]));
    assert!(!Commands::am_i_admin(&vec![0, 1 | 2 | 4, 16]));
    assert!(Commands::am_i_admin(&vec![1, 8]));
    assert!(Commands::am_i_admin(&vec![u64::MAX]));
}

#[test]
fn slow_mode_rate_is_read() {
    assert_eq!(Commands::parse_slow_mode_rate("30"), Some(30));
    assert_eq!(Commands::parse_slow_mode_rate("0"), Some(0));
    assert_eq!(Commands::parse_slow_mode_rate("65535"), Some(65535));
    assert_eq!(Commands::parse_slow_mode_rate("65536"), None);
    assert_eq!(Commands::parse_slow_mode_rate("-1"), None);
    assert_eq!(Commands::parse_slow_mode_rate(""), None);
    assert_eq!(Commands::parse_slow_mode_rate("fast"), None);
    assert_eq!(Commands::parse_slow_mode_rate("5,3"), Some(5));
    assert_eq!(Commands::parse_slow_mode_rate("12, 40"), Some(12));
    assert_eq!(Commands::parse_slow_mode_rate(",5"), None);
    assert_eq!(Commands::parse_slow_mode_rate("+7"), Some(7));
    assert_eq!(Commands::parse_slow_mode_rate("-0"), None);
}
