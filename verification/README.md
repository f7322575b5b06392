# au_trx

Sends blocks of 24-bit PCM audio over a Unix domain socket without making the audio thread
wait.

The audio thread hands blocks to an `AudioProcessor`, which queues them in a lock-free ring.
A `Transmitter` on a thread of its own connects to the server, exchanges `HELO` for a 16-bit
id, and sends each block as a frame: its length (32 bits, lowest byte first, itself
counted), a 20-byte frame header with the block's timestamp, and the audio. It connects
again after a failure. Spent buffers return to the audio thread through a second ring.

- `src/` is the verified library: the rings (`ring`), the header and the frames (`header`,
  `frame`), both threads (`processor`, `transmitter`), the signal between them (`signal`),
  samples as bytes (`pcm`), and what holds of all of it together (`laws`).
- `app/` is what the library leaves to others: the thread, the lock, the socket, the C
  interface, and a program that plays a tone.
- `tests/` runs the library against a simulated server.
