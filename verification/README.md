# lvast

A library for astronomy device control and image files, written in Verus.

- `src/` is the verified library: the OnStep mount and MoonLite focuser
  command clients, simulated camera and focuser rules, camera, guiding, mount
  and plate-solver types, and the FITS, XISF, PNG, JPEG and TIFF encodings of
  image frames. Contracts state results over the device's reply where a
  device answers, and over named codec results for PNG, JPEG and TIFF.
  `xisf_round_trip.rs` proves that reading an XISF file the writer produced
  gives the frame back; `fits_round_trip.rs` proves the same for FITS when
  every user header card has a keyword other than `END` and keeps ASCII
  text when cut to 80 bytes (a card whose cut text is not ASCII is padded
  to 80 characters, which take more than 80 bytes, and shifts the cards
  after it).
- `tests/` runs the library on concrete values.
- `app/` is the program around it: serial and TCP connections, worker
  threads, file I/O, and the floating-point parts (image statistics and
  stretches, sky coordinates, the rendered simulated sky).
