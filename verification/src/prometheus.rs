//! Rendering a statistics snapshot in the text exposition format served by
//! the metrics endpoint. Each counter family carries its help and type
//! header; the per-topic families carry one sample per configured topic.
//! The rendering is an exact function of the snapshot and the configured
//! topic names.

use vstd::prelude::*;

use crate::decimal::{dec_chars, u64_to_dec_string};
use crate::geyser_neon_config::GeyserPluginKafkaConfig;
use crate::kafka_producer_stats::Stats;

verus! {

/// A `# HELP` / `# TYPE` header for one counter family.
pub open spec fn spec_family_header(name: Seq<char>, help: Seq<char>) -> Seq<char> {
    "# HELP "@ + name + " "@ + help + "\n# TYPE "@ + name + " counter\n"@
}

/// An unlabeled counter sample.
pub open spec fn spec_plain_sample(name: Seq<char>, value: nat) -> Seq<char> {
    name + "_total "@ + dec_chars(value) + "\n"@
}

/// A counter sample labeled with its topic.
pub open spec fn spec_topic_sample(name: Seq<char>, topic: Seq<char>, value: nat) -> Seq<char> {
    name + "_total{topic=\""@ + topic + "\"} "@ + dec_chars(value) + "\n"@
}

/// The whole exposition: bytes and serialization failures, then the
/// per-topic sent and unsent families, then the end marker.
pub open spec fn spec_render_metrics(s: Stats, c: GeyserPluginKafkaConfig) -> Seq<char> {
    spec_family_header("kafka_bytes_sent"@, "How many bytes were sent to Kafka cluster"@)
        + spec_plain_sample("kafka_bytes_sent"@, s.kafka_bytes_tx as nat) + spec_family_header(
        "kafka_errors_serialize"@,
        "How many messages have not been serialized"@,
    ) + spec_plain_sample("kafka_errors_serialize"@, s.kafka_error_serialize as nat)
        + spec_family_header("kafka_messages_sent"@, "How many messages have been sent"@)
        + spec_topic_sample(
        "kafka_messages_sent"@,
        c.update_account_topic@,
        s.kafka_update_account as nat,
    ) + spec_topic_sample("kafka_messages_sent"@, c.update_slot_topic@, s.kafka_update_slot as nat)
        + spec_topic_sample(
        "kafka_messages_sent"@,
        c.notify_transaction_topic@,
        s.kafka_notify_transaction as nat,
    ) + spec_topic_sample("kafka_messages_sent"@, c.notify_block_topic@, s.kafka_notify_block as nat)
        + spec_family_header("kafka_messages_unsent"@, "How many messages have not been sent"@)
        + spec_topic_sample(
        "kafka_messages_unsent"@,
        c.update_account_topic@,
        s.kafka_error_update_account as nat,
    ) + spec_topic_sample(
        "kafka_messages_unsent"@,
        c.update_slot_topic@,
        s.kafka_error_update_slot as nat,
    ) + spec_topic_sample(
        "kafka_messages_unsent"@,
        c.notify_transaction_topic@,
        s.kafka_error_notify_transaction as nat,
    ) + spec_topic_sample(
        "kafka_messages_unsent"@,
        c.notify_block_topic@,
        s.kafka_error_notify_block as nat,
    ) + "# EOF\n"@
}

fn append_family_header(out: &mut String, name: &str, help: &str)
    ensures
        final(out)@ == old(out)@ + spec_family_header(name@, help@),
{
    out.append("# HELP ");
    out.append(name);
    out.append(" ");
    out.append(help);
    out.append("\n# TYPE ");
    out.append(name);
    out.append(" counter\n");
    proof {
        assert(out@ =~= old(out)@ + spec_family_header(name@, help@));
    }
}

fn append_plain_sample(out: &mut String, name: &str, value: u64)
    ensures
        final(out)@ == old(out)@ + spec_plain_sample(name@, value as nat),
{
    out.append(name);
    out.append("_total ");
    let v = u64_to_dec_string(value);
    out.append(v.as_str());
    out.append("\n");
    proof {
        assert(out@ =~= old(out)@ + spec_plain_sample(name@, value as nat));
    }
}

fn append_topic_sample(out: &mut String, name: &str, topic: &String, value: u64)
    ensures
        final(out)@ == old(out)@ + spec_topic_sample(name@, topic@, value as nat),
{
    out.append(name);
    out.append("_total{topic=\"");
    out.append(topic.as_str());
    out.append("\"} ");
    let v = u64_to_dec_string(value);
    out.append(v.as_str());
    out.append("\n");
    proof {
        assert(out@ =~= old(out)@ + spec_topic_sample(name@, topic@, value as nat));
    }
}

/// Render a snapshot for the metrics endpoint.
pub fn render_metrics(s: &Stats, c: &GeyserPluginKafkaConfig) -> (r: String)
    ensures
        r@ == spec_render_metrics(*s, *c),
{
    let mut out = String::new();
    append_family_header(&mut out, "kafka_bytes_sent", "How many bytes were sent to Kafka cluster");
    append_plain_sample(&mut out, "kafka_bytes_sent", s.kafka_bytes_tx);
    append_family_header(
        &mut out,
        "kafka_errors_serialize",
        "How many messages have not been serialized",
    );
    append_plain_sample(&mut out, "kafka_errors_serialize", s.kafka_error_serialize);
    append_family_header(&mut out, "kafka_messages_sent", "How many messages have been sent");
    append_topic_sample(
        &mut out,
        "kafka_messages_sent",
        &c.update_account_topic,
        s.kafka_update_account,
    );
    append_topic_sample(&mut out, "kafka_messages_sent", &c.update_slot_topic, s.kafka_update_slot);
    append_topic_sample(
        &mut out,
        "kafka_messages_sent",
        &c.notify_transaction_topic,
        s.kafka_notify_transaction,
    );
    append_topic_sample(
        &mut out,
        "kafka_messages_sent",
        &c.notify_block_topic,
        s.kafka_notify_block,
    );
    append_family_header(&mut out, "kafka_messages_unsent", "How many messages have not been sent");
    append_topic_sample(
        &mut out,
        "kafka_messages_unsent",
        &c.update_account_topic,
        s.kafka_error_update_account,
    );
    append_topic_sample(
        &mut out,
        "kafka_messages_unsent",
        &c.update_slot_topic,
        s.kafka_error_update_slot,
    );
    append_topic_sample(
        &mut out,
        "kafka_messages_unsent",
        &c.notify_transaction_topic,
        s.kafka_error_notify_transaction,
    );
    append_topic_sample(
        &mut out,
        "kafka_messages_unsent",
        &c.notify_block_topic,
        s.kafka_error_notify_block,
    );
    out.append("# EOF\n");
    proof {
        assert(out@ =~= spec_render_metrics(*s, *c));
    }
    out
}

} // verus!
