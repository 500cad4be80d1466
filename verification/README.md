# analytic_beam

The analytic beams of MWA tiles (as mwa_pb and the RTS compute them) and of SKA-Low stations, with
everything but the floating-point arithmetic written and proved in Verus.

`src/` is the verified library. It decides what a beam refuses, which bowties or elements enter a
response, in which order, where they stand and with what delays and gains; for a GPU it finds the
unique ones among many tiles, lays out what the device is given, says step by step what it is to
copy and which kernel to launch, and undoes the de-duplication in what comes back. Real numbers are
IEEE 754 bit patterns there (`double`), and tables and cubes of values are held by `ndarray`
(`table`, `gpu::cube`). `laws` and `gpu::laws` state what holds of the beams as a whole, beside the
laws that stand with the functions they are about (`amps`, `rts`).

`app/` turns bit patterns into real numbers, works the responses out with `marlu`, `num-complex` and
`rayon`, and drives a GPU behind a trait.

`tests/` runs the library.
