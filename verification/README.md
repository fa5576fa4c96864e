# flv_remuxer

A live-stream remuxer. ffmpeg turns a media source into an FLV stream; the
remuxer reads that stream and gives every subscriber a stream of its own that
starts with the FLV header, the script tag and the codec configuration records,
with video starting at a key frame and timestamps rebased to zero.

- `src/` is the verified library (Verus):
  - `flv.rs`: the FLV header and tags, and their byte encodings;
  - `subscriber.rs`: subscribers, their channels and the messages they receive;
    each subscriber keeps a ghost outbox of every message handed to its channel
    and whether the channel took it;
  - `remuxer.rs`: what each subscriber is sent for each parser result (stated
    over the outboxes: the survivors of a pass were handed exactly its messages,
    the dropped ones had one refused), what the end of a stream hands everyone,
    and the laws that hold of it;
  - `transcoder.rs`: the per-protocol ffmpeg options and ffmpeg's arguments;
  - `manager.rs`: one remuxer per source, the rounds that start reads, and the
    removal of finished remuxers;
  - `request.rs`: which source a request asks for.
- `app/` holds the two servers (HTTP and WebSocket), the ffmpeg process, the
  FLV parser and the configuration file.
- `tests/` runs the library on concrete streams.
