# parakeet_eou

Streaming speech recognition with end-of-utterance detection, around an encoder and a
decoder network.

`src/` is the library, verified with Verus. Audio samples, features, caches and logits
travel through it as the 32-bit words of their IEEE 754 encoding.

- `parakeet_eou` takes the transcription of a chunk from one step to the next;
  `decoding` decides on the best token, `audio` and `frontend` hold the geometry of the
  samples and mel frames, `vocabulary` the steering tokens, and `history` what holds over
  any number of chunks.
- `opening`, `files`, `optimized` and `execution` decide which networks of a model
  directory are opened, in which order and how.
- `model_eou`, `encoder_run`, `decoder_run` and `litert_run` say what a network is given
  and what becomes of what it gives back; `cache` and `projected` roll the attention
  caches.
- `layout`, `layers`, `outlets` and `litert` describe encoders.
- `tensor`, `words`, `text`, `error` and `android_log` are the ground they stand on.

What cannot be verified stands in `app/`: files, ONNX Runtime sessions, the callbacks of
LiteRT backends, the log, and the floating-point arithmetic of the front end. It
performs what the library asks for and hands back what happened.

Trusted without proof are the calls into `ndarray` (in `tensor`), `tokenizers` (in
`vocabulary`) and two functions of `String` (in `text` and `litert`); the comment on each
says what is claimed of it.
