# pulseaudio

A Rust implementation of the PulseAudio native protocol, verified with
Verus: the wire format ("tagstructs"), the packet descriptors that frame
messages, the commands, and the decisions a blocking client makes about
replies. The library in `src/` is checked by Verus against the contracts
stated on its functions.

## Layout

- `src/protocol/serde/wire.rs`: the mathematical model of the wire format:
  the bytes of each tagged value, the parse of a byte sequence back into
  values, and the proof that parsing undoes encoding.
- `src/protocol/serde.rs`: `TagStructReader` and `TagStructWriter`, proved
  to follow the model, and the `TagStructRead` / `TagStructWrite` traits,
  whose `lemma_roundtrip` states that a read gives back what a write wrote.
- `src/protocol/serde/{cstr,props,volume,list}.rs`: strings without nul
  bytes, property lists, volumes, and lists of items.
- `src/protocol/serde/{sample_spec,channel_map,format_info}.rs`: sample
  formats, channel maps and stream formats.
- `src/protocol/command.rs` and `src/protocol/command/`: command tags, the
  `Command` enum, and the payload of each command, with their encodings,
  among them the parameters of new playback and record streams and the
  information replies about the server, sinks, sources, cards, samples,
  sink inputs and source outputs.
- `src/protocol/serde/port_info.rs`: the ports of sinks and sources, and the
  lookup of the active port by name.
- `src/protocol/serde/counted.rs`: items sent after their number.
- `src/protocol.rs`: descriptors and message framing, and the reading of
  replies, acks and subscription events.
- `src/client.rs`: reply checking, version negotiation, frame splitting and
  the bookkeeping of playback streams.
- `src/client/record_sink.rs`: the bounded buffer between a record stream
  and its reader.
- `tests/`: tests of the library on concrete values.
- `app/`: blocking socket I/O around the library: locating the server,
  reading and writing whole messages, a small blocking client, and a record
  buffer shared between a stream and its reader.
