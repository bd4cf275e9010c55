# media_player

A small video and audio player: ffmpeg decodes, cpal plays the sound, a
minifb window shows the picture (rotated and scaled to fit).

- `src/` is the verified library: the command line, the run and repeat
  bookkeeping, the decoding thread's routing and waiting decisions, the audio
  sample queue and callback decisions, the packing of decoded planes into
  window pixels, and the fixed-point resampling behind rotation and scaling.
- `app/` is the program around it: ffmpeg, cpal and minifb calls, threads,
  channels and the floating-point geometry of the transform.
- `tests/` exercises the library on concrete inputs.
