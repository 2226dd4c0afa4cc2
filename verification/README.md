# thin_las

Thins, scales and converts laser-scan point clouds (LAS, LAZ, E57).

- `src/` is the library: which points and grid cells stay, where they go, what is copied
  beside them, what is logged and shown. It is written in Verus and proved.
- `app/` is the window program around it: files, threads, and arithmetic on coordinates.
- `tests/` runs the library, among others on E57 files held in memory.

Points are thinned in one of two ways. On a structured scan every k-th row and every k-th
column of the scanner's grid stays; the grid is numbered anew and the panoramas follow
their scans. Otherwise space is divided into cubes, and the first point of each cube
stays.
